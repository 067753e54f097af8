//! The four counts for a unit of text, the counting engine, and the
//! formatter.
//!
//! A `FileResult` holds the line, word, character and byte counts of one
//! counted unit. Results are combined with the additive `add`; the engine
//! computes a result for a single line (`counts_for_line`) and for a whole
//! text (`counts_for_file`), the latter provably equal to folding `add` over
//! the per-line results of the text's line-feed-delimited segments.
//!
//! Contracts are stated over `counts_of`, the mathematical quadruple
//! (lines, words, chars, bytes) of a result, so the algebraic laws of `add`
//! hold without overflow side conditions.

use crate::display_options::DisplayOptions;
use crate::display_options::num_enabled;
use crate::text::byte_len_of;
use crate::text::char_utf8_width;
use crate::text::char_width;
use crate::text::is_whitespace_char;
use crate::text::is_wspace;
use crate::text::lemma_byte_len_concat;
use crate::text::lemma_byte_len_is_encoding_len;
use crate::text::lemma_bytes_ge_chars;
use crate::text::lemma_words_all_nonws;
use crate::text::lemma_words_all_ws;
use crate::text::lemma_words_le_len;
use crate::text::words_from;
use crate::text::words_of;
use vstd::prelude::*;
use vstd::string::StrSliceExecFns;

verus! {

/// Line, word, character and byte counts for one unit of text.
#[derive(Debug, Clone, Copy, PartialEq, Eq, Structural)]
pub struct FileResult {
    pub lines: usize,
    pub words: usize,
    pub chars: usize,
    pub bytes: usize,
}

/// The counts of `r` as a mathematical quadruple (lines, words, chars, bytes).
pub open spec fn counts_of(r: FileResult) -> (int, int, int, int) {
    (r.lines as int, r.words as int, r.chars as int, r.bytes as int)
}

/// Pairwise sum of two count quadruples.
pub open spec fn add_counts(a: (int, int, int, int), b: (int, int, int, int)) -> (
    int,
    int,
    int,
    int,
) {
    (a.0 + b.0, a.1 + b.1, a.2 + b.2, a.3 + b.3)
}

/// The all-zero quadruple: the identity of `add_counts`.
pub open spec fn zero_counts() -> (int, int, int, int) {
    (0, 0, 0, 0)
}

/// The counts of a single line `s`: one line, its words, its scalar values,
/// and the bytes of its UTF-8 encoding.
pub open spec fn line_counts(s: Seq<char>) -> (int, int, int, int) {
    (1, words_of(s) as int, s.len() as int, byte_len_of(s) as int)
}

impl FileResult {
    /// Build a result with the given four counts.
    pub fn new(lines: usize, words: usize, chars: usize, bytes: usize) -> (r: Self)
        ensures
            r == (FileResult { lines, words, chars, bytes }),
    {
        Self { lines, words, chars, bytes }
    }

    /// Add the counts of `other` into `self`.
    pub fn add_mut(&mut self, other: &Self)
        requires
            old(self).lines + other.lines <= usize::MAX,
            old(self).words + other.words <= usize::MAX,
            old(self).chars + other.chars <= usize::MAX,
            old(self).bytes + other.bytes <= usize::MAX,
        ensures
            counts_of(*final(self)) == add_counts(counts_of(*old(self)), counts_of(*other)),
    {
        self.lines = self.lines + other.lines;
        self.words = self.words + other.words;
        self.chars = self.chars + other.chars;
        self.bytes = self.bytes + other.bytes;
    }

    /// The pairwise sum of the counts of `self` and `other`.
    pub fn add(&self, other: &Self) -> (r: Self)
        requires
            self.lines + other.lines <= usize::MAX,
            self.words + other.words <= usize::MAX,
            self.chars + other.chars <= usize::MAX,
            self.bytes + other.bytes <= usize::MAX,
        ensures
            counts_of(r) == add_counts(counts_of(*self), counts_of(*other)),
    {
        let mut res = self.clone();
        res.add_mut(other);
        res
    }
}

impl Default for FileResult {
    /// The result with all four counts zero.
    fn default() -> (r: Self)
        ensures
            r == (FileResult { lines: 0, words: 0, chars: 0, bytes: 0 }),
            counts_of(r) == zero_counts(),
    {
        Self::new(0, 0, 0, 0)
    }
}

/// Addition of counts is commutative.
pub proof fn lemma_add_commutative(a: (int, int, int, int), b: (int, int, int, int))
    ensures
        add_counts(a, b) == add_counts(b, a),
{
}

/// Addition of counts is associative.
pub proof fn lemma_add_associative(
    a: (int, int, int, int),
    b: (int, int, int, int),
    c: (int, int, int, int),
)
    ensures
        add_counts(add_counts(a, b), c) == add_counts(a, add_counts(b, c)),
{
}

/// The all-zero quadruple, the counts of `FileResult::default()`, is the
/// identity of addition on either side.
pub proof fn lemma_add_identity(a: (int, int, int, int))
    ensures
        add_counts(a, zero_counts()) == a,
        add_counts(zero_counts(), a) == a,
{
}

/// The index of the first line feed in `s`, or `s.len()` if there is none.
pub open spec fn first_nl(s: Seq<char>) -> nat
    decreases s.len(),
{
    if s.len() == 0 {
        0
    } else if s[0] == '\n' {
        0
    } else {
        1 + first_nl(s.drop_first())
    }
}

/// `first_nl` points at the first line feed: nothing before it is one, and
/// it is one itself unless it is the length of the sequence.
pub proof fn lemma_first_nl_props(s: Seq<char>)
    ensures
        first_nl(s) <= s.len(),
        first_nl(s) < s.len() ==> s[first_nl(s) as int] == '\n',
        forall|k: int| 0 <= k < first_nl(s) ==> s[k] != '\n',
    decreases s.len(),
{
    if s.len() > 0 && s[0] != '\n' {
        let r = s.drop_first();
        lemma_first_nl_props(r);
        assert forall|k: int| 0 <= k < first_nl(s) implies s[k] != '\n' by {
            if k > 0 {
                assert(s[k] == r[k - 1]);
            }
        }
        if first_nl(s) < s.len() {
            assert(s[first_nl(s) as int] == r[first_nl(r) as int]);
        }
    }
}

/// A position with no line feed before it, and a line feed (or the end) at
/// it, is the first line feed.
pub proof fn lemma_first_nl_at(s: Seq<char>, m: int)
    requires
        0 <= m <= s.len(),
        forall|k: int| 0 <= k < m ==> s[k] != '\n',
        m < s.len() ==> s[m] == '\n',
    ensures
        first_nl(s) == m,
    decreases s.len(),
{
    if s.len() > 0 && m > 0 {
        let r = s.drop_first();
        assert forall|k: int| 0 <= k < m - 1 implies r[k] != '\n' by {
            assert(r[k] == s[k + 1]);
        }
        assert(m - 1 < r.len() ==> r[m - 1] == s[m]);
        lemma_first_nl_at(r, m - 1);
    }
}

/// The line-feed-delimited segments of `s`: each segment ends with a line
/// feed except possibly the last, segments are non-empty, and their
/// concatenation is `s`. An empty text has no segments.
pub open spec fn split_lines(s: Seq<char>) -> Seq<Seq<char>>
    decreases s.len(),
{
    if s.len() == 0 {
        Seq::empty()
    } else {
        let k = first_nl(s);
        if k >= s.len() {
            seq![s]
        } else {
            seq![s.take((k + 1) as int)] + split_lines(s.skip((k + 1) as int))
        }
    }
}

/// Folding additive combination over the per-line counts of each segment.
pub open spec fn fold_counts(segs: Seq<Seq<char>>) -> (int, int, int, int)
    decreases segs.len(),
{
    if segs.len() == 0 {
        zero_counts()
    } else {
        add_counts(line_counts(segs[0]), fold_counts(segs.drop_first()))
    }
}

/// The fold over the segments of `s` is a partition of the text's counts:
/// its line count is the number of segments, its character count is the
/// length of `s`, its byte count is the encoded length of `s`, and its word
/// count is non-negative and at most the character count.
pub proof fn lemma_fold_split(s: Seq<char>)
    ensures
        fold_counts(split_lines(s)).0 == split_lines(s).len(),
        0 <= fold_counts(split_lines(s)).1 <= s.len(),
        fold_counts(split_lines(s)).2 == s.len(),
        fold_counts(split_lines(s)).3 == byte_len_of(s),
        split_lines(s).len() <= s.len(),
    decreases s.len(),
{
    if s.len() > 0 {
        lemma_first_nl_props(s);
        let k = first_nl(s);
        if k >= s.len() {
            let segs = seq![s];
            assert(segs.drop_first() =~= Seq::<Seq<char>>::empty());
            assert(fold_counts(Seq::<Seq<char>>::empty()) == zero_counts());
            lemma_words_le_len(s, true);
        } else {
            let first = s.take((k + 1) as int);
            let rest = s.skip((k + 1) as int);
            let segs = seq![first] + split_lines(rest);
            assert(split_lines(s) == segs);
            assert(segs[0] == first);
            assert(segs.drop_first() =~= split_lines(rest));
            assert(first + rest =~= s);
            lemma_byte_len_concat(first, rest);
            lemma_words_le_len(first, true);
            lemma_fold_split(rest);
            assert(fold_counts(segs) == add_counts(line_counts(first), fold_counts(split_lines(rest))));
        }
    }
}

/// Compute the counts for a single line `s`: one line unit, its words, its
/// scalar values, and its UTF-8 bytes. A line is any maximal run of scalar
/// values; a trailing line feed, if present, is counted like any other
/// whitespace character. Words are maximal runs of non-whitespace scalar
/// values, the start of the line counting as following whitespace.
pub fn counts_for_line(s: &str) -> (r: FileResult)
    ensures
        counts_of(r) == line_counts(s@),
        r.lines == 1,
        r.words == words_of(s@),
        r.chars == s@.len(),
        r.bytes == byte_len_of(s@),
{
    proof {
        lemma_byte_len_is_encoding_len(s@);
        assert(s@.skip(0) =~= s@);
    }
    let bytes_total = s.as_bytes().len();
    let n = s.unicode_len();
    let mut words: usize = 0;
    let mut bytes: usize = 0;
    let mut prev_ws = true;
    let mut i: usize = 0;
    while i < n
        invariant
            n == s@.len(),
            i <= n,
            byte_len_of(s@) == bytes_total,
            words + words_from(s@.skip(i as int), prev_ws) == words_of(s@),
            bytes + byte_len_of(s@.skip(i as int)) == byte_len_of(s@),
            words <= i,
        decreases n - i,
    {
        let c = s.get_char(i);
        proof {
            assert(s@.skip(i as int)[0] == s@[i as int]);
            assert(s@.skip(i as int).drop_first() =~= s@.skip(i as int + 1));
        }
        let w = char_utf8_width(c);
        bytes = bytes + w;
        if !is_whitespace_char(c) {
            if prev_ws {
                words = words + 1;
            }
            prev_ws = false;
        } else {
            prev_ws = true;
        }
        i = i + 1;
    }
    proof {
        assert(s@.skip(n as int) =~= Seq::<char>::empty());
    }
    FileResult { lines: 1, words, chars: n, bytes }
}

/// Compute the counts for a whole text: the text is split at every line
/// feed into segments, each keeping its trailing line feed except possibly
/// an unterminated final one, and the per-segment counts of
/// `counts_for_line` are folded together with the additive combination.
/// The line count is thus the number of segments, and an empty text counts
/// zero lines.
pub fn counts_for_file(file: &str) -> (r: FileResult)
    ensures
        counts_of(r) == fold_counts(split_lines(file@)),
        r.lines == split_lines(file@).len(),
        r.words == fold_counts(split_lines(file@)).1,
        r.chars == file@.len(),
        r.bytes == byte_len_of(file@),
{
    proof {
        lemma_byte_len_is_encoding_len(file@);
        lemma_fold_split(file@);
        assert(file@.skip(0) =~= file@);
    }
    let bytes_total = file.as_bytes().len();
    let n = file.unicode_len();
    let mut acc = FileResult::new(0, 0, 0, 0);
    let mut pos: usize = 0;
    while pos < n
        invariant
            n == file@.len(),
            pos <= n,
            byte_len_of(file@) == bytes_total,
            fold_counts(split_lines(file@)).0 <= n,
            0 <= fold_counts(split_lines(file@)).1 <= n,
            fold_counts(split_lines(file@)).2 == n,
            fold_counts(split_lines(file@)).3 == bytes_total,
            add_counts(counts_of(acc), fold_counts(split_lines(file@.skip(pos as int))))
                == fold_counts(split_lines(file@)),
            acc.lines + split_lines(file@.skip(pos as int)).len() == split_lines(file@).len(),
        decreases n - pos,
    {
        let ghost t = file@.skip(pos as int);
        let mut j = pos;
        while j < n && file.get_char(j) != '\n'
            invariant
                n == file@.len(),
                pos <= j <= n,
                forall|k: int| pos <= k < j ==> file@[k] != '\n',
            decreases n - j,
        {
            j = j + 1;
        }
        let end = if j < n {
            j + 1
        } else {
            n
        };
        proof {
            assert forall|k: int| 0 <= k < j - pos implies t[k] != '\n' by {
                assert(t[k] == file@[pos + k]);
            }
            assert(j - pos < t.len() ==> t[j - pos] == file@[j as int]);
            lemma_first_nl_at(t, j - pos);
            lemma_fold_split(file@.skip(end as int));
        }
        let seg = file.substring_char(pos, end);
        let lr = counts_for_line(seg);
        proof {
            let rest_split = split_lines(file@.skip(end as int));
            if j < n {
                assert(t.take(j - pos + 1) =~= seg@);
                assert(t.skip(j - pos + 1) =~= file@.skip(end as int));
                let segs = seq![seg@] + rest_split;
                assert(split_lines(t) == segs);
                assert(segs[0] == seg@);
                assert(segs.drop_first() =~= rest_split);
            } else {
                assert(t =~= seg@);
                assert(split_lines(t) == seq![seg@]);
                assert(seq![seg@][0] == seg@);
                assert(seq![seg@].drop_first() =~= rest_split);
                assert(fold_counts(rest_split) == zero_counts());
            }
            assert(fold_counts(split_lines(t)) == add_counts(line_counts(seg@), fold_counts(rest_split)));
        }
        acc.add_mut(&lr);
        pos = end;
    }
    proof {
        assert(file@.skip(n as int) =~= Seq::<char>::empty());
    }
    acc
}

/// A line with no whitespace characters holds exactly one word when it is
/// non-empty; when it is empty, every count but the line count is zero.
pub proof fn lemma_line_no_whitespace(s: Seq<char>)
    requires
        forall|i: int| 0 <= i < s.len() ==> !is_wspace(#[trigger] s[i]),
    ensures
        line_counts(s).1 == if s.len() > 0 {
            1int
        } else {
            0int
        },
        s.len() == 0 ==> line_counts(s) == (1int, 0int, 0int, 0int),
{
    lemma_words_all_nonws(s, true);
}

/// A line consisting entirely of whitespace holds no words.
pub proof fn lemma_line_all_whitespace(s: Seq<char>)
    requires
        forall|i: int| 0 <= i < s.len() ==> is_wspace(#[trigger] s[i]),
    ensures
        line_counts(s).1 == 0,
{
    lemma_words_all_ws(s, true);
}

/// Every result the engine produces satisfies `bytes >= chars`, at line
/// and at file level, with equality exactly when every scalar value of the
/// text has a single-byte encoding.
pub proof fn lemma_result_bytes_ge_chars(s: Seq<char>)
    ensures
        line_counts(s).3 >= line_counts(s).2,
        fold_counts(split_lines(s)).3 >= fold_counts(split_lines(s)).2,
        line_counts(s).3 == line_counts(s).2 <==> (forall|i: int|
            0 <= i < s.len() ==> char_width(#[trigger] s[i]) == 1),
{
    lemma_bytes_ge_chars(s);
    lemma_fold_split(s);
}

/// Counting a text in one piece equals counting two chunks separately and
/// adding the results, whenever the cut lies on a line-feed boundary: the
/// engine is chunk-boundary-invariant at line granularity.
pub proof fn lemma_chunk_boundary(s: Seq<char>, k: int)
    requires
        0 <= k <= s.len(),
        0 < k ==> s[k - 1] == '\n',
    ensures
        fold_counts(split_lines(s)) == add_counts(
            fold_counts(split_lines(s.take(k))),
            fold_counts(split_lines(s.skip(k))),
        ),
    decreases s.len(),
{
    if k == 0 {
        assert(s.take(0) =~= Seq::<char>::empty());
        assert(s.skip(0) =~= s);
        assert(fold_counts(split_lines(s.take(0))) == zero_counts());
    } else {
        lemma_first_nl_props(s);
        let f = first_nl(s) as int;
        assert(f <= k - 1);
        let first = s.take(f + 1);
        let head = s.take(k);
        let tail = s.skip(f + 1);
        assert forall|j: int| 0 <= j < f implies head[j] != '\n' by {
            assert(head[j] == s[j]);
        }
        assert(head[f] == s[f]);
        lemma_first_nl_at(head, f);
        assert(split_lines(s) == seq![first] + split_lines(tail));
        assert((seq![first] + split_lines(tail))[0] == first);
        assert((seq![first] + split_lines(tail)).drop_first() =~= split_lines(tail));
        assert(head.take(f + 1) =~= first);
        assert(head.skip(f + 1) =~= tail.take(k - (f + 1)));
        assert(split_lines(head) == seq![first] + split_lines(tail.take(k - (f + 1))));
        assert((seq![first] + split_lines(tail.take(k - (f + 1))))[0] == first);
        assert((seq![first] + split_lines(tail.take(k - (f + 1)))).drop_first() =~= split_lines(
            tail.take(k - (f + 1)),
        ));
        assert(tail.skip(k - (f + 1)) =~= s.skip(k));
        if k - (f + 1) > 0 {
            assert(tail[k - (f + 1) - 1] == s[k - 1]);
        }
        lemma_chunk_boundary(tail, k - (f + 1));
    }
}

/// The decimal digit character for `d` (0 to 9).
pub open spec fn digit_char(d: nat) -> char {
    if d == 0 {
        '0'
    } else if d == 1 {
        '1'
    } else if d == 2 {
        '2'
    } else if d == 3 {
        '3'
    } else if d == 4 {
        '4'
    } else if d == 5 {
        '5'
    } else if d == 6 {
        '6'
    } else if d == 7 {
        '7'
    } else if d == 8 {
        '8'
    } else {
        '9'
    }
}

/// The decimal representation of `n`, most significant digit first, with no
/// leading zeros (`0` itself is the single digit `0`).
pub open spec fn dec_digits(n: nat) -> Seq<char>
    decreases n,
{
    if n < 10 {
        seq![digit_char(n)]
    } else {
        dec_digits(n / 10) + seq![digit_char(n % 10)]
    }
}

/// A run of `k` space characters.
pub open spec fn spaces(k: nat) -> Seq<char>
    decreases k,
{
    if k == 0 {
        Seq::empty()
    } else {
        seq![' '] + spaces((k - 1) as nat)
    }
}

/// The decimal representation of `n`, left-aligned in a field of minimum
/// width ten: digits first, then spaces up to width ten; a longer number is
/// not truncated.
pub open spec fn padded(n: nat) -> Seq<char> {
    let d = dec_digits(n);
    if d.len() >= 10 {
        d
    } else {
        d + spaces((10 - d.len()) as nat)
    }
}

/// The rendering of `r` filtered by `o`: the padded decimal value of each
/// enabled field, in the canonical order lines, words, chars, bytes, with
/// nothing at all for a disabled field.
pub open spec fn render_spec(r: FileResult, o: DisplayOptions) -> Seq<char> {
    (if o.lines {
        padded(r.lines as nat)
    } else {
        Seq::<char>::empty()
    }) + (if o.words {
        padded(r.words as nat)
    } else {
        Seq::<char>::empty()
    }) + (if o.chars {
        padded(r.chars as nat)
    } else {
        Seq::<char>::empty()
    }) + (if o.bytes {
        padded(r.bytes as nat)
    } else {
        Seq::<char>::empty()
    })
}

/// Append the single decimal digit `d` to `out`.
fn append_digit(out: &mut String, d: usize)
    requires
        d < 10,
    ensures
        final(out)@ == old(out)@ + seq![digit_char(d as nat)],
{
    let lit: &str = if d == 0 {
        "0"
    } else if d == 1 {
        "1"
    } else if d == 2 {
        "2"
    } else if d == 3 {
        "3"
    } else if d == 4 {
        "4"
    } else if d == 5 {
        "5"
    } else if d == 6 {
        "6"
    } else if d == 7 {
        "7"
    } else if d == 8 {
        "8"
    } else {
        "9"
    };
    proof {
        reveal_strlit("0");
        reveal_strlit("1");
        reveal_strlit("2");
        reveal_strlit("3");
        reveal_strlit("4");
        reveal_strlit("5");
        reveal_strlit("6");
        reveal_strlit("7");
        reveal_strlit("8");
        reveal_strlit("9");
        assert(lit@ =~= seq![digit_char(d as nat)]);
    }
    out.append(lit);
}

/// Append the decimal representation of `n` to `out`.
fn push_decimal(out: &mut String, n: usize)
    ensures
        final(out)@ == old(out)@ + dec_digits(n as nat),
    decreases n,
{
    if n >= 10 {
        push_decimal(out, n / 10);
        append_digit(out, n % 10);
        proof {
            assert(old(out)@ + dec_digits((n / 10) as nat) + seq![digit_char((n % 10) as nat)]
                =~= old(out)@ + dec_digits(n as nat));
        }
    } else {
        append_digit(out, n);
    }
}

/// Append `k` spaces to `out`.
fn append_spaces(out: &mut String, k: usize)
    ensures
        final(out)@ == old(out)@ + spaces(k as nat),
    decreases k,
{
    if k > 0 {
        proof {
            reveal_strlit(" ");
            assert(" "@ =~= seq![' ']);
        }
        out.append(" ");
        append_spaces(out, k - 1);
        proof {
            assert(old(out)@ + seq![' '] + spaces((k - 1) as nat) =~= old(out)@ + spaces(k as nat));
        }
    } else {
        proof {
            assert(old(out)@ + spaces(0) =~= old(out)@);
        }
    }
}

/// Append the decimal value of `v`, left-aligned to minimum width ten.
fn push_padded(out: &mut String, v: usize)
    ensures
        final(out)@ == old(out)@ + padded(v as nat),
{
    let before = out.as_str().unicode_len();
    push_decimal(out, v);
    let after = out.as_str().unicode_len();
    let dlen = after - before;
    if dlen < 10 {
        append_spaces(out, 10 - dlen);
        proof {
            assert(old(out)@ + dec_digits(v as nat) + spaces((10 - dlen) as nat)
                =~= old(out)@ + padded(v as nat));
        }
    }
}

/// Render `result` filtered by `options`: for each enabled field, in the
/// canonical order lines, words, chars, bytes, its decimal value
/// left-aligned to a minimum width of ten characters; disabled fields
/// contribute nothing.
pub fn file_result_string(result: &FileResult, options: &DisplayOptions) -> (r: String)
    ensures
        r@ == render_spec(*result, *options),
{
    let mut s = String::new();
    if options.lines {
        push_padded(&mut s, result.lines);
    }
    if options.words {
        push_padded(&mut s, result.words);
    }
    if options.chars {
        push_padded(&mut s, result.chars);
    }
    if options.bytes {
        push_padded(&mut s, result.bytes);
    }
    proof {
        assert(s@ =~= render_spec(*result, *options));
    }
    s
}

/// A decimal representation holds at least one digit.
pub proof fn lemma_dec_digits_len(n: nat)
    ensures
        dec_digits(n).len() >= 1,
    decreases n,
{
    if n >= 10 {
        lemma_dec_digits_len(n / 10);
    }
}

/// A run of `k` spaces has length `k`.
proof fn lemma_spaces_len(k: nat)
    ensures
        spaces(k).len() == k,
    decreases k,
{
    if k > 0 {
        lemma_spaces_len((k - 1) as nat);
    }
}

/// Every padded field is at least ten characters wide.
pub proof fn lemma_padded_len(n: nat)
    ensures
        padded(n).len() >= 10,
{
    lemma_dec_digits_len(n);
    if dec_digits(n).len() < 10 {
        lemma_spaces_len((10 - dec_digits(n).len()) as nat);
    }
}

/// The rendering of a result holds one field of at least ten characters per
/// enabled option, in the canonical order, and nothing else: its length is
/// at least ten times the number of enabled fields.
pub proof fn lemma_render_len(r: FileResult, o: DisplayOptions)
    ensures
        render_spec(r, o).len() >= 10 * num_enabled(o),
{
    lemma_padded_len(r.lines as nat);
    lemma_padded_len(r.words as nat);
    lemma_padded_len(r.chars as nat);
    lemma_padded_len(r.bytes as nat);
}

} // verus!
