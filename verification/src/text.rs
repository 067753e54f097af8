//! Character-level model of text: whitespace classification, UTF-8 byte
//! widths, and word counting over sequences of Unicode scalar values.
//!
//! The specifications here are the vocabulary of the counting engine's
//! contracts. The byte width of a scalar value is tied to vstd's UTF-8
//! encoding model, so `byte_len_of(s@)` is provably the byte length of the
//! encoded string.

use vstd::prelude::*;
use vstd::string::StringSliceAdditionalSpecFns;
use vstd::utf8::char_is_scalar;
use vstd::utf8::encode_scalar;
use vstd::utf8::encode_utf8;
use vstd::utf8::encode_utf8_decode_utf8;

verus! {

/// True when `c` has the Unicode `White_Space` property: tab through
/// carriage return, space, next line, no-break space, ogham space mark,
/// the en-quad .. hair-space block, the line and paragraph separators,
/// the narrow no-break space, the medium mathematical space, and the
/// ideographic space.
pub open spec fn is_wspace(c: char) -> bool {
    let u = c as u32;
    (0x09 <= u && u <= 0x0D) || u == 0x20 || u == 0x85 || u == 0xA0 || u == 0x1680 || (0x2000 <= u
        && u <= 0x200A) || u == 0x2028 || u == 0x2029 || u == 0x202F || u == 0x205F || u == 0x3000
}

/// Decides the Unicode `White_Space` property of `c`.
pub fn is_whitespace_char(c: char) -> (r: bool)
    ensures
        r == is_wspace(c),
{
    let u = c as u32;
    (0x09 <= u && u <= 0x0D) || u == 0x20 || u == 0x85 || u == 0xA0 || u == 0x1680 || (0x2000 <= u
        && u <= 0x200A) || u == 0x2028 || u == 0x2029 || u == 0x202F || u == 0x205F || u == 0x3000
}

/// The number of bytes (1 to 4) in the UTF-8 encoding of `c`.
pub open spec fn char_width(c: char) -> nat {
    let u = c as u32;
    if u < 0x80 {
        1
    } else if u < 0x800 {
        2
    } else if u < 0x10000 {
        3
    } else {
        4
    }
}

/// `char_width` agrees with the length of vstd's UTF-8 encoding of `c`.
pub proof fn lemma_char_width_is_encoding_len(c: char)
    ensures
        char_width(c) == encode_scalar(c as u32).len(),
{
    char_is_scalar(c);
}

/// Computes the number of bytes in the UTF-8 encoding of `c`.
pub fn char_utf8_width(c: char) -> (w: usize)
    ensures
        w == char_width(c),
        1 <= w <= 4,
{
    let u = c as u32;
    if u < 0x80 {
        1
    } else if u < 0x800 {
        2
    } else if u < 0x10000 {
        3
    } else {
        4
    }
}

/// The total number of bytes in the UTF-8 encoding of the scalar values `s`.
pub open spec fn byte_len_of(s: Seq<char>) -> nat
    decreases s.len(),
{
    if s.len() == 0 {
        0
    } else {
        char_width(s[0]) + byte_len_of(s.drop_first())
    }
}

/// `byte_len_of` is the length of vstd's UTF-8 encoding of the sequence,
/// and hence the byte length of any `&str` whose view is `s`.
pub proof fn lemma_byte_len_is_encoding_len(s: Seq<char>)
    ensures
        byte_len_of(s) == encode_utf8(s).len(),
    decreases s.len(),
{
    if s.len() > 0 {
        lemma_char_width_is_encoding_len(s[0]);
        lemma_byte_len_is_encoding_len(s.drop_first());
    }
}

/// Byte lengths add over concatenation.
pub proof fn lemma_byte_len_concat(a: Seq<char>, b: Seq<char>)
    ensures
        byte_len_of(a + b) == byte_len_of(a) + byte_len_of(b),
    decreases a.len(),
{
    if a.len() == 0 {
        assert(a + b =~= b);
    } else {
        assert((a + b).drop_first() =~= a.drop_first() + b);
        lemma_byte_len_concat(a.drop_first(), b);
    }
}

/// Every result of the engine satisfies `bytes >= chars`: each scalar value
/// occupies at least one byte, with equality exactly when every scalar value
/// is a single-byte (ASCII) one.
pub proof fn lemma_bytes_ge_chars(s: Seq<char>)
    ensures
        byte_len_of(s) >= s.len(),
        byte_len_of(s) == s.len() <==> (forall|i: int| 0 <= i < s.len() ==> char_width(#[trigger] s[i]) == 1),
    decreases s.len(),
{
    if s.len() > 0 {
        lemma_bytes_ge_chars(s.drop_first());
        assert(forall|i: int| 0 <= i < s.len() - 1 ==> s.drop_first()[i] == s[i + 1]);
        if byte_len_of(s) == s.len() {
            assert(forall|i: int| 0 <= i < s.len() ==> char_width(#[trigger] s[i]) == 1) by {
                assert(forall|i: int| 1 <= i < s.len() ==> #[trigger] s[i] == s.drop_first()[i - 1]);
            }
        }
        if forall|i: int| 0 <= i < s.len() ==> char_width(#[trigger] s[i]) == 1 {
            assert(byte_len_of(s) == s.len());
        }
    }
}

/// The number of maximal runs of non-whitespace scalar values in `s`, given
/// whether the character just before `s` (if any) was whitespace. A run
/// begins at every whitespace-to-non-whitespace transition.
pub open spec fn words_from(s: Seq<char>, prev_ws: bool) -> nat
    decreases s.len(),
{
    if s.len() == 0 {
        0
    } else {
        (if prev_ws && !is_wspace(s[0]) {
            1nat
        } else {
            0nat
        }) + words_from(s.drop_first(), is_wspace(s[0]))
    }
}

/// The number of words in `s`: the start of the text counts as following
/// whitespace, so a leading non-whitespace character starts a word.
pub open spec fn words_of(s: Seq<char>) -> nat {
    words_from(s, true)
}

/// A text never holds more words than scalar values.
pub proof fn lemma_words_le_len(s: Seq<char>, prev_ws: bool)
    ensures
        words_from(s, prev_ws) <= s.len(),
    decreases s.len(),
{
    if s.len() > 0 {
        lemma_words_le_len(s.drop_first(), is_wspace(s[0]));
    }
}

/// A line with no whitespace holds one word if it is non-empty, none if it
/// is empty; scanned from inside a word it starts no new one.
pub proof fn lemma_words_all_nonws(s: Seq<char>, prev_ws: bool)
    requires
        forall|i: int| 0 <= i < s.len() ==> !is_wspace(#[trigger] s[i]),
    ensures
        words_from(s, prev_ws) == if s.len() > 0 && prev_ws {
            1nat
        } else {
            0nat
        },
    decreases s.len(),
{
    if s.len() > 0 {
        assert(forall|i: int| 0 <= i < s.len() - 1 ==> s.drop_first()[i] == s[i + 1]);
        lemma_words_all_nonws(s.drop_first(), is_wspace(s[0]));
    }
}

/// A line consisting entirely of whitespace holds no words.
pub proof fn lemma_words_all_ws(s: Seq<char>, prev_ws: bool)
    requires
        forall|i: int| 0 <= i < s.len() ==> is_wspace(#[trigger] s[i]),
    ensures
        words_from(s, prev_ws) == 0,
    decreases s.len(),
{
    if s.len() > 0 {
        assert(forall|i: int| 0 <= i < s.len() - 1 ==> s.drop_first()[i] == s[i + 1]);
        lemma_words_all_ws(s.drop_first(), is_wspace(s[0]));
    }
}

/// Decides whether two strings hold the same sequence of scalar values, by
/// comparing their UTF-8 bytes: UTF-8 encoding is injective, so the byte
/// sequences agree exactly when the character sequences do.
pub fn str_eq(a: &str, b: &str) -> (r: bool)
    ensures
        r == (a@ == b@),
{
    proof {
        encode_utf8_decode_utf8(a@);
        encode_utf8_decode_utf8(b@);
    }
    let ab = a.as_bytes();
    let bb = b.as_bytes();
    let n = ab.len();
    if n != bb.len() {
        return false;
    }
    let mut i: usize = 0;
    while i < n
        invariant
            n == ab@.len() == bb@.len(),
            i <= n,
            ab@ == a.spec_bytes(),
            bb@ == b.spec_bytes(),
            forall|j: int| 0 <= j < i ==> ab@[j] == bb@[j],
        decreases n - i,
    {
        if ab[i] != bb[i] {
            return false;
        }
        i = i + 1;
    }
    proof {
        assert(ab@ =~= bb@);
    }
    true
}

} // verus!
