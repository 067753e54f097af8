//! Command-line argument parsing: flags into a `DisplayOptions`, everything
//! else into a list of source paths plus a read-standard-input marker.
//!
//! The meaning of an argument list is the recursive specification
//! `parse_args_spec`; `parse_args` is proved to return exactly that. A help
//! request and an unrecognized option are not option sets, so they come back
//! as a `ParseError` for the caller to report.

use crate::display_options::DisplayOptions;
use crate::display_options::default_options_spec;
use crate::display_options::join_spec;
use crate::display_options::off_options;
use crate::text::str_eq;
use vstd::prelude::*;
use vstd::string::StrSliceExecFns;

verus! {

/// Why parsing produced no option set.
#[derive(Debug)]
pub enum ParseError {
    /// Help was requested: the caller should print usage and exit cleanly.
    HelpRequested,
    /// An argument started with `-` but is no recognized option; holds the
    /// offending argument.
    UnrecognizedOption(String),
}

/// The meaning of one argument that looks like an option.
pub enum OptionOutcome {
    /// A recognized display flag: the option set it turns on.
    Flag(DisplayOptions),
    /// A request for the help text.
    Help,
    /// Not a recognized option.
    Bad,
}

/// The meaning of a long option argument (one starting with `--`).
pub open spec fn long_outcome(a: Seq<char>) -> OptionOutcome {
    if a == "--help"@ {
        OptionOutcome::Help
    } else if a == "--lines"@ {
        OptionOutcome::Flag(DisplayOptions { lines: true, words: false, chars: false, bytes: false })
    } else if a == "--words"@ {
        OptionOutcome::Flag(DisplayOptions { lines: false, words: true, chars: false, bytes: false })
    } else if a == "--chars"@ {
        OptionOutcome::Flag(DisplayOptions { lines: false, words: false, chars: true, bytes: false })
    } else if a == "--bytes"@ {
        OptionOutcome::Flag(DisplayOptions { lines: false, words: false, chars: false, bytes: true })
    } else {
        OptionOutcome::Bad
    }
}

/// The meaning of a short option argument (one starting with `-` alone).
pub open spec fn short_outcome(a: Seq<char>) -> OptionOutcome {
    if a == "-h"@ || a == "-help"@ {
        OptionOutcome::Help
    } else if a == "-l"@ {
        OptionOutcome::Flag(DisplayOptions { lines: true, words: false, chars: false, bytes: false })
    } else if a == "-w"@ {
        OptionOutcome::Flag(DisplayOptions { lines: false, words: true, chars: false, bytes: false })
    } else if a == "-m"@ {
        OptionOutcome::Flag(DisplayOptions { lines: false, words: false, chars: true, bytes: false })
    } else if a == "-c"@ {
        OptionOutcome::Flag(DisplayOptions { lines: false, words: false, chars: false, bytes: true })
    } else {
        OptionOutcome::Bad
    }
}

/// The result of parsing a whole argument list.
pub enum ArgsOutcome {
    /// The accumulated option set, the source paths in argument order, and
    /// whether standard input should be read as one more unit.
    Parsed { opts: DisplayOptions, paths: Seq<Seq<char>>, read_stdin: bool },
    /// Help was requested somewhere in the list.
    Help,
    /// The given argument is an unrecognized option.
    Unrecognized { arg: Seq<char> },
}

/// One step per argument, left to right, short-circuiting on help or an
/// unrecognized option. An argument starting with `-` of length one asks
/// for standard input; a longer one starting with `--` is a long option,
/// any other one starting with `-` a short option; everything else is a
/// path. At the end, if no display flag was seen the baseline options
/// apply, and standard input is read whenever no path was given.
pub open spec fn parse_state_rec(
    args: Seq<Seq<char>>,
    i: int,
    opts: DisplayOptions,
    seen: bool,
    paths: Seq<Seq<char>>,
    stdin: bool,
) -> ArgsOutcome
    decreases args.len() - i,
{
    if i < 0 || i >= args.len() {
        ArgsOutcome::Parsed {
            opts: if seen {
                opts
            } else {
                default_options_spec()
            },
            paths,
            read_stdin: stdin || paths.len() == 0,
        }
    } else {
        let a = args[i];
        if a.len() >= 1 && a[0] == '-' {
            if a.len() == 1 {
                parse_state_rec(args, i + 1, opts, seen, paths, true)
            } else if a[1] == '-' {
                match long_outcome(a) {
                    OptionOutcome::Flag(f) => parse_state_rec(
                        args,
                        i + 1,
                        join_spec(opts, f),
                        true,
                        paths,
                        stdin,
                    ),
                    OptionOutcome::Help => ArgsOutcome::Help,
                    OptionOutcome::Bad => ArgsOutcome::Unrecognized { arg: a },
                }
            } else {
                match short_outcome(a) {
                    OptionOutcome::Flag(f) => parse_state_rec(
                        args,
                        i + 1,
                        join_spec(opts, f),
                        true,
                        paths,
                        stdin,
                    ),
                    OptionOutcome::Help => ArgsOutcome::Help,
                    OptionOutcome::Bad => ArgsOutcome::Unrecognized { arg: a },
                }
            }
        } else {
            parse_state_rec(args, i + 1, opts, seen, paths.push(a), stdin)
        }
    }
}

/// The meaning of an argument list: the fold of `parse_state_rec` started
/// from no flags, no paths and no standard-input request.
pub open spec fn parse_args_spec(args: Seq<Seq<char>>) -> ArgsOutcome {
    parse_state_rec(args, 0, off_options(), false, Seq::empty(), false)
}

/// Parse one long option (an argument starting with `--`).
pub fn parse_long_option(arg: &str) -> (r: Result<DisplayOptions, ParseError>)
    ensures
        match r {
            Ok(f) => long_outcome(arg@) == OptionOutcome::Flag(f),
            Err(ParseError::HelpRequested) => long_outcome(arg@) is Help,
            Err(ParseError::UnrecognizedOption(s)) => long_outcome(arg@) is Bad && s@ == arg@,
        },
{
    if str_eq(arg, "--help") {
        Err(ParseError::HelpRequested)
    } else if str_eq(arg, "--lines") {
        Ok(DisplayOptions::with_lines_only())
    } else if str_eq(arg, "--words") {
        Ok(DisplayOptions::with_words_only())
    } else if str_eq(arg, "--chars") {
        Ok(DisplayOptions::with_chars_only())
    } else if str_eq(arg, "--bytes") {
        Ok(DisplayOptions::with_bytes_only())
    } else {
        Err(ParseError::UnrecognizedOption(arg.to_owned()))
    }
}

/// Parse one short option (an argument starting with `-` but not `--`).
pub fn parse_short_option(arg: &str) -> (r: Result<DisplayOptions, ParseError>)
    ensures
        match r {
            Ok(f) => short_outcome(arg@) == OptionOutcome::Flag(f),
            Err(ParseError::HelpRequested) => short_outcome(arg@) is Help,
            Err(ParseError::UnrecognizedOption(s)) => short_outcome(arg@) is Bad && s@ == arg@,
        },
{
    if str_eq(arg, "-h") || str_eq(arg, "-help") {
        Err(ParseError::HelpRequested)
    } else if str_eq(arg, "-l") {
        Ok(DisplayOptions::with_lines_only())
    } else if str_eq(arg, "-w") {
        Ok(DisplayOptions::with_words_only())
    } else if str_eq(arg, "-m") {
        Ok(DisplayOptions::with_chars_only())
    } else if str_eq(arg, "-c") {
        Ok(DisplayOptions::with_bytes_only())
    } else {
        Err(ParseError::UnrecognizedOption(arg.to_owned()))
    }
}

/// Parse the command-line arguments into the display options, the source
/// paths in argument order, and whether standard input should be read.
/// Help and unrecognized options come back as errors for the caller to
/// report; every other argument list parses.
pub fn parse_args(args: &[String]) -> (r: Result<(DisplayOptions, Vec<String>, bool), ParseError>)
    ensures
        match r {
            Ok(p) => parse_args_spec(args.deep_view()) == (ArgsOutcome::Parsed {
                opts: p.0,
                paths: p.1.deep_view(),
                read_stdin: p.2,
            }),
            Err(ParseError::HelpRequested) => parse_args_spec(args.deep_view()) is Help,
            Err(ParseError::UnrecognizedOption(s)) => parse_args_spec(args.deep_view())
                == (ArgsOutcome::Unrecognized { arg: s@ }),
        },
{
    let ghost dv = args.deep_view();
    let mut opts = DisplayOptions::new(false, false, false, false);
    let mut seen = false;
    let mut stdin_flag = false;
    let mut paths: Vec<String> = Vec::new();
    proof {
        assert(paths.deep_view() =~= Seq::<Seq<char>>::empty());
    }
    let n = args.len();
    let mut idx: usize = 0;
    while idx < n
        invariant
            n == args@.len(),
            idx <= n,
            dv == args.deep_view(),
            parse_state_rec(dv, idx as int, opts, seen, paths.deep_view(), stdin_flag)
                == parse_args_spec(dv),
        decreases n - idx,
    {
        let arg: &String = &args[idx];
        proof {
            assert(dv[idx as int] == arg@);
        }
        let a = arg.as_str();
        let alen = a.unicode_len();
        if alen >= 1 && a.get_char(0) == '-' {
            if alen == 1 {
                stdin_flag = true;
            } else if a.get_char(1) == '-' {
                match parse_long_option(a) {
                    Ok(f) => {
                        opts.join_mut(&f);
                        seen = true;
                    },
                    Err(e) => {
                        return Err(e);
                    },
                }
            } else {
                match parse_short_option(a) {
                    Ok(f) => {
                        opts.join_mut(&f);
                        seen = true;
                    },
                    Err(e) => {
                        return Err(e);
                    },
                }
            }
        } else {
            let ghost pre = paths.deep_view();
            paths.push(arg.clone());
            proof {
                assert(paths.deep_view() =~= pre.push(arg@));
            }
        }
        idx = idx + 1;
    }
    let final_opts = if seen {
        opts
    } else {
        DisplayOptions::default_options()
    };
    let read_stdin = stdin_flag || paths.len() == 0;
    Ok((final_opts, paths, read_stdin))
}

} // verus!
