//! The set of counts a user asked to see.
//!
//! `DisplayOptions` is a record of four independent booleans, one per count.
//! Options accumulated from several command-line flags are combined with
//! `join` (per-field or); `meet` (per-field and) is the dual. The join forms
//! a semilattice whose laws are proved below.

use vstd::prelude::*;

verus! {

/// Which of the four counts (lines, words, chars, bytes) to display.
#[derive(Debug, Clone, Copy, PartialEq, Eq, Structural)]
pub struct DisplayOptions {
    pub lines: bool,
    pub words: bool,
    pub chars: bool,
    pub bytes: bool,
}

/// The value with every field off: the identity of `join`.
pub open spec fn off_options() -> DisplayOptions {
    DisplayOptions { lines: false, words: false, chars: false, bytes: false }
}

/// The conventional `wc` baseline: lines, words and bytes on, chars off.
pub open spec fn default_options_spec() -> DisplayOptions {
    DisplayOptions { lines: true, words: true, chars: false, bytes: true }
}

/// Per-field disjunction of two option sets.
pub open spec fn join_spec(a: DisplayOptions, b: DisplayOptions) -> DisplayOptions {
    DisplayOptions {
        lines: a.lines || b.lines,
        words: a.words || b.words,
        chars: a.chars || b.chars,
        bytes: a.bytes || b.bytes,
    }
}

/// Per-field conjunction of two option sets.
pub open spec fn meet_spec(a: DisplayOptions, b: DisplayOptions) -> DisplayOptions {
    DisplayOptions {
        lines: a.lines && b.lines,
        words: a.words && b.words,
        chars: a.chars && b.chars,
        bytes: a.bytes && b.bytes,
    }
}

/// How many fields of `o` are on (0 to 4).
pub open spec fn num_enabled(o: DisplayOptions) -> int {
    (if o.lines { 1int } else { 0int }) + (if o.words { 1int } else { 0int }) + (if o.chars {
        1int
    } else {
        0int
    }) + (if o.bytes { 1int } else { 0int })
}

impl DisplayOptions {
    /// Build an option set with the given four fields.
    pub fn new(lines: bool, words: bool, chars: bool, bytes: bool) -> (r: Self)
        ensures
            r == (DisplayOptions { lines, words, chars, bytes }),
    {
        Self { lines, words, chars, bytes }
    }

    /// Turn on, in place, every field that is on in `other`.
    pub fn join_mut(&mut self, other: &Self)
        ensures
            *final(self) == join_spec(*old(self), *other),
    {
        self.lines = self.lines || other.lines;
        self.words = self.words || other.words;
        self.chars = self.chars || other.chars;
        self.bytes = self.bytes || other.bytes;
    }

    /// The per-field disjunction of `self` and `other`.
    pub fn join(&self, other: &Self) -> (r: Self)
        ensures
            r == join_spec(*self, *other),
    {
        let mut res = self.clone();
        res.join_mut(other);
        res
    }

    /// Turn off, in place, every field that is off in `other`.
    pub fn meet_mut(&mut self, other: &Self)
        ensures
            *final(self) == meet_spec(*old(self), *other),
    {
        self.lines = self.lines && other.lines;
        self.words = self.words && other.words;
        self.chars = self.chars && other.chars;
        self.bytes = self.bytes && other.bytes;
    }

    /// The per-field conjunction of `self` and `other`.
    pub fn meet(&self, other: &Self) -> (r: Self)
        ensures
            r == meet_spec(*self, *other),
    {
        let mut res = self.clone();
        res.meet_mut(other);
        res
    }

    /// The baseline used when no flag was given: lines, words, bytes.
    pub fn default_options() -> (r: Self)
        ensures
            r == default_options_spec(),
    {
        Self::new(true, true, false, true)
    }

    /// True exactly when every field is off.
    pub fn all_off(&self) -> (r: bool)
        ensures
            r == (*self == off_options()),
    {
        !(self.lines || self.words || self.chars || self.bytes)
    }

    /// The option set with only `lines` on.
    pub fn with_lines_only() -> (r: Self)
        ensures
            r == (DisplayOptions { lines: true, words: false, chars: false, bytes: false }),
    {
        Self::new(true, false, false, false)
    }

    /// The option set with only `words` on.
    pub fn with_words_only() -> (r: Self)
        ensures
            r == (DisplayOptions { lines: false, words: true, chars: false, bytes: false }),
    {
        Self::new(false, true, false, false)
    }

    /// The option set with only `chars` on.
    pub fn with_chars_only() -> (r: Self)
        ensures
            r == (DisplayOptions { lines: false, words: false, chars: true, bytes: false }),
    {
        Self::new(false, false, true, false)
    }

    /// The option set with only `bytes` on.
    pub fn with_bytes_only() -> (r: Self)
        ensures
            r == (DisplayOptions { lines: false, words: false, chars: false, bytes: true }),
    {
        Self::new(false, false, false, true)
    }
}

impl Default for DisplayOptions {
    /// The option set with every field off.
    fn default() -> (r: Self)
        ensures
            r == off_options(),
    {
        Self::new(false, false, false, false)
    }
}

/// How many of the four display fields are turned on.
pub fn num_to_display(options: &DisplayOptions) -> (r: u8)
    ensures
        r as int == num_enabled(*options),
{
    let mut n: u8 = 0;
    if options.lines {
        n = n + 1;
    }
    if options.words {
        n = n + 1;
    }
    if options.chars {
        n = n + 1;
    }
    if options.bytes {
        n = n + 1;
    }
    n
}

/// `join` is commutative.
pub proof fn lemma_join_commutative(a: DisplayOptions, b: DisplayOptions)
    ensures
        join_spec(a, b) == join_spec(b, a),
{
}

/// `join` is associative.
pub proof fn lemma_join_associative(a: DisplayOptions, b: DisplayOptions, c: DisplayOptions)
    ensures
        join_spec(join_spec(a, b), c) == join_spec(a, join_spec(b, c)),
{
}

/// `join` is idempotent.
pub proof fn lemma_join_idempotent(a: DisplayOptions)
    ensures
        join_spec(a, a) == a,
{
}

/// The all-off value is the identity of `join`, on either side.
pub proof fn lemma_join_identity(a: DisplayOptions)
    ensures
        join_spec(a, off_options()) == a,
        join_spec(off_options(), a) == a,
{
}

} // verus!
