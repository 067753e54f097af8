use wcrs::cli_args::{parse_args, parse_long_option, parse_short_option, ParseError};
use wcrs::display_options::{num_to_display, DisplayOptions};

#[test]
fn test_parse_short_option() {
    assert_eq!(
        parse_short_option("-l").unwrap(),
        DisplayOptions::with_lines_only()
    );
    assert_eq!(
        parse_short_option("-w").unwrap(),
        DisplayOptions::with_words_only()
    );
    assert_eq!(
        parse_short_option("-m").unwrap(),
        DisplayOptions::with_chars_only()
    );
    assert_eq!(
        parse_short_option("-c").unwrap(),
        DisplayOptions::with_bytes_only()
    );
}

#[test]
fn test_parse_long_option() {
    assert_eq!(
        parse_long_option("--lines").unwrap(),
        DisplayOptions::with_lines_only()
    );
    assert_eq!(
        parse_long_option("--words").unwrap(),
        DisplayOptions::with_words_only()
    );
    assert_eq!(
        parse_long_option("--chars").unwrap(),
        DisplayOptions::with_chars_only()
    );
    assert_eq!(
        parse_long_option("--bytes").unwrap(),
        DisplayOptions::with_bytes_only()
    );
}

#[test]
fn test_parse_args() {
    let res = parse_args(&[String::from("--lines"), String::from("-m")]).unwrap();
    assert_eq!(res.0, DisplayOptions::new(true, false, true, false));

    let res = parse_args(&[
        String::from("--lines"),
        String::from("-m"),
        String::from("-"),
        String::from("test"),
        String::from("--bytes"),
    ])
    .unwrap();
    assert_eq!(res.0, DisplayOptions::new(true, false, true, true));
    assert_eq!(res.1, vec![String::from("test")]);
    assert_eq!(res.2, true);

    let res = parse_args(&[
        String::from("test"),
        String::from("a"),
        String::from("-"),
        String::from("1234"),
    ])
    .unwrap();
    assert_eq!(res.0, DisplayOptions::default_options());
    assert_eq!(
        res.1,
        vec![
            String::from("test"),
            String::from("a"),
            String::from("1234")
        ]
    );
    assert_eq!(res.2, true);

    let res = parse_args(&[
        String::from("-c"),
        String::from("--chars"),
        String::from("-w"),
    ])
    .unwrap();
    assert_eq!(res.0, DisplayOptions::new(false, true, true, true));
    assert!(res.1.is_empty());
    assert_eq!(res.2, true);
}

#[test]
fn test_all_off() {
    assert!(&DisplayOptions::default().all_off());
    assert_eq!(false, DisplayOptions::default_options().all_off());
}

#[test]
fn test_meet() {
    let def_ops = DisplayOptions::default_options();
    let off_ops = DisplayOptions::default();
    let on_ops = DisplayOptions::new(true, true, true, true);
    assert_eq!(off_ops, off_ops.meet(&def_ops));
    assert_eq!(def_ops, on_ops.meet(&def_ops));
}

#[test]
fn test_join() {
    let def_ops = DisplayOptions::default_options();
    let off_ops = DisplayOptions::default();
    let on_ops = DisplayOptions::new(true, true, true, true);
    assert_eq!(def_ops, off_ops.join(&def_ops));
    assert_eq!(on_ops, on_ops.join(&def_ops));
}

#[test]
fn test_parse_args_help() {
    assert!(matches!(
        parse_args(&[String::from("--help")]),
        Err(ParseError::HelpRequested)
    ));
    assert!(matches!(
        parse_args(&[String::from("-h")]),
        Err(ParseError::HelpRequested)
    ));
    assert!(matches!(
        parse_args(&[String::from("-help")]),
        Err(ParseError::HelpRequested)
    ));
}

#[test]
fn test_parse_args_unrecognized() {
    match parse_args(&[String::from("-x")]) {
        Err(ParseError::UnrecognizedOption(s)) => assert_eq!(s, "-x"),
        _ => panic!("expected an unrecognized-option error"),
    }
    match parse_args(&[String::from("--nope"), String::from("file")]) {
        Err(ParseError::UnrecognizedOption(s)) => assert_eq!(s, "--nope"),
        _ => panic!("expected an unrecognized-option error"),
    }
}

#[test]
fn test_parse_args_paths_and_stdin() {
    // no arguments at all: baseline options, no paths, read stdin
    let res = parse_args(&[]).unwrap();
    assert_eq!(res.0, DisplayOptions::default_options());
    assert!(res.1.is_empty());
    assert_eq!(res.2, true);

    // a path suppresses the implicit stdin
    let res = parse_args(&[String::from("file.txt")]).unwrap();
    assert_eq!(res.1, vec![String::from("file.txt")]);
    assert_eq!(res.2, false);

    // an empty argument does not start with '-', so it is a path
    let res = parse_args(&[String::from("")]).unwrap();
    assert_eq!(res.1, vec![String::from("")]);
    assert_eq!(res.2, false);
}

#[test]
fn test_join_meet_concrete_laws() {
    let a = DisplayOptions::new(true, false, true, false);
    let b = DisplayOptions::new(false, false, true, true);
    let c = DisplayOptions::new(true, true, false, false);
    let off = DisplayOptions::default();
    assert_eq!(a.join(&b), b.join(&a));
    assert_eq!(a.join(&b).join(&c), a.join(&b.join(&c)));
    assert_eq!(a.join(&a), a);
    assert_eq!(a.join(&off), a);
    assert_eq!(a.meet(&b), b.meet(&a));
}

#[test]
fn test_join_mut_and_meet_mut() {
    let mut o = DisplayOptions::default();
    o.join_mut(&DisplayOptions::with_lines_only());
    o.join_mut(&DisplayOptions::with_bytes_only());
    assert_eq!(o, DisplayOptions::new(true, false, false, true));
    o.meet_mut(&DisplayOptions::with_lines_only());
    assert_eq!(o, DisplayOptions::with_lines_only());
}

#[test]
fn test_num_to_display() {
    assert_eq!(num_to_display(&DisplayOptions::default()), 0);
    assert_eq!(num_to_display(&DisplayOptions::default_options()), 3);
    assert_eq!(num_to_display(&DisplayOptions::new(true, true, true, true)), 4);
    assert_eq!(num_to_display(&DisplayOptions::with_chars_only()), 1);
}
