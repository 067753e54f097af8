use wcrs::display_options::DisplayOptions;
use wcrs::file_result::{counts_for_file, counts_for_line, file_result_string, FileResult};

#[test]
fn test_file_result_string() {
    let result = FileResult::new(1, 2, 3, 4);
    let options = DisplayOptions::new(true, false, true, false);

    assert_eq!(
        &file_result_string(&result, &options),
        "1         3         "
    );
}

#[test]
fn test_add() {
    let fr1 = FileResult::new(1, 2, 3, 4);
    let fr2 = FileResult::new(3, 2, 5, 9);
    assert_eq!(fr1.add(&fr2), FileResult::new(4, 4, 8, 13));
}

#[test]
fn test_add_mut_accumulates() {
    let mut total = FileResult::default();
    total.add_mut(&FileResult::new(1, 2, 3, 4));
    total.add_mut(&FileResult::new(3, 2, 5, 9));
    assert_eq!(total, FileResult::new(4, 4, 8, 13));
}

#[test]
fn test_default_is_zero() {
    assert_eq!(FileResult::default(), FileResult::new(0, 0, 0, 0));
}

#[test]
fn test_add_concrete_laws() {
    let a = FileResult::new(1, 2, 3, 4);
    let b = FileResult::new(3, 2, 5, 9);
    let c = FileResult::new(10, 20, 30, 40);
    let zero = FileResult::default();
    assert_eq!(a.add(&b), b.add(&a));
    assert_eq!(a.add(&b).add(&c), a.add(&b.add(&c)));
    assert_eq!(a.add(&zero), a);
    assert_eq!(zero.add(&a), a);
}

#[test]
fn test_counts_for_line_scenario() {
    let r = counts_for_line("  hello   world\n");
    assert_eq!(r.lines, 1);
    assert_eq!(r.words, 2);
    assert_eq!(r.chars, 16);
    assert_eq!(r.bytes, 16);
}

#[test]
fn test_counts_for_line_empty() {
    let r = counts_for_line("");
    assert_eq!(r, FileResult::new(1, 0, 0, 0));
}

#[test]
fn test_counts_for_line_no_whitespace() {
    let r = counts_for_line("abc");
    assert_eq!(r, FileResult::new(1, 1, 3, 3));
}

#[test]
fn test_counts_for_line_whitespace_only() {
    let r = counts_for_line(" \t  \r");
    assert_eq!(r.lines, 1);
    assert_eq!(r.words, 0);
    assert_eq!(r.chars, 5);
    assert_eq!(r.bytes, 5);
}

#[test]
fn test_counts_for_line_unicode() {
    // two-byte scalar values: é and ö
    let r = counts_for_line("h\u{e9}llo w\u{f6}rld");
    assert_eq!(r.words, 2);
    assert_eq!(r.chars, 11);
    assert_eq!(r.bytes, 13);

    // three-byte scalar values
    let r = counts_for_line("\u{65e5}\u{672c}\u{8a9e}");
    assert_eq!(r.words, 1);
    assert_eq!(r.chars, 3);
    assert_eq!(r.bytes, 9);

    // a four-byte scalar value
    let r = counts_for_line("\u{1f600}");
    assert_eq!(r, FileResult::new(1, 1, 1, 4));
}

#[test]
fn test_counts_for_line_unicode_whitespace() {
    // the no-break space separates words, like std's char::is_whitespace
    assert!('\u{a0}'.is_whitespace());
    let r = counts_for_line("a\u{a0}b");
    assert_eq!(r.words, 2);
    assert_eq!(r.chars, 3);
    assert_eq!(r.bytes, 4);
}

#[test]
fn test_counts_for_file_empty() {
    let r = counts_for_file("");
    assert_eq!(r, FileResult::new(0, 0, 0, 0));
}

#[test]
fn test_counts_for_file_basic() {
    let r = counts_for_file("one two\nthree\n");
    assert_eq!(r.lines, 2);
    assert_eq!(r.words, 3);
    assert_eq!(r.chars, 14);
    assert_eq!(r.bytes, 14);
}

#[test]
fn test_counts_for_file_no_trailing_newline() {
    // the unterminated final fragment still counts as one line
    let r = counts_for_file("a\nb");
    assert_eq!(r.lines, 2);
    assert_eq!(r.words, 2);
    assert_eq!(r.chars, 3);
    assert_eq!(r.bytes, 3);
}

#[test]
fn test_counts_for_file_blank_lines() {
    let r = counts_for_file("\n\n\n");
    assert_eq!(r.lines, 3);
    assert_eq!(r.words, 0);
    assert_eq!(r.chars, 3);
    assert_eq!(r.bytes, 3);
}

#[test]
fn test_counts_for_file_crlf() {
    // a carriage return is ordinary whitespace; only line feeds delimit
    let r = counts_for_file("a\r\nb\r\n");
    assert_eq!(r.lines, 2);
    assert_eq!(r.words, 2);
    assert_eq!(r.chars, 6);
    assert_eq!(r.bytes, 6);
}

#[test]
fn test_counts_for_file_matches_per_line_fold() {
    let text = "  hello   world\nsecond line\nlast";
    let whole = counts_for_file(text);
    let mut folded = FileResult::default();
    folded.add_mut(&counts_for_line("  hello   world\n"));
    folded.add_mut(&counts_for_line("second line\n"));
    folded.add_mut(&counts_for_line("last"));
    assert_eq!(whole, folded);
}

#[test]
fn test_file_result_string_all_fields() {
    let result = FileResult::new(1, 2, 3, 4);
    let all = DisplayOptions::new(true, true, true, true);
    assert_eq!(
        &file_result_string(&result, &all),
        "1         2         3         4         "
    );
}

#[test]
fn test_file_result_string_no_fields() {
    let result = FileResult::new(1, 2, 3, 4);
    let none = DisplayOptions::default();
    assert_eq!(&file_result_string(&result, &none), "");
}

#[test]
fn test_file_result_string_canonical_order() {
    // order follows the canonical lines, words, chars, bytes, never the
    // order the flags were supplied in
    let result = FileResult::new(7, 8, 9, 10);
    let opts = DisplayOptions::with_bytes_only().join(&DisplayOptions::with_words_only());
    assert_eq!(&file_result_string(&result, &opts), "8         10        ");
}

#[test]
fn test_file_result_string_wide_value() {
    // a value wider than ten digits is not truncated or padded
    let result = FileResult::new(12345678901, 0, 0, 0);
    let opts = DisplayOptions::with_lines_only();
    assert_eq!(&file_result_string(&result, &opts), "12345678901");
}
