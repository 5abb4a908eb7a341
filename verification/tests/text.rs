use mdtolinkedin::text::{
    chars_of, decimal_of, decimal_padded_of, first_word_of, is_whitespace, push_chars, push_str,
    slice_chars, string_of, trim_end_len, trim_start_index, trimmed, trimmed_end,
};

fn chars(s: &str) -> Vec<char> {
    s.chars().collect()
}

#[test]
fn chars_and_strings_convert_both_ways() {
    assert_eq!(chars_of("a\u{E9}\u{1F680}"), vec!['a', '\u{E9}', '\u{1F680}']);
    assert_eq!(chars_of(""), Vec::<char>::new());
    assert_eq!(string_of(&vec!['a', '\u{E9}', '\u{1F680}']), "a\u{E9}\u{1F680}");
    assert_eq!(string_of(&Vec::new()), "");
}

#[test]
fn pushing_appends_at_the_end() {
    let mut out = chars("ab");
    push_str(&mut out, "c\u{1F680}");
    assert_eq!(out, chars("abc\u{1F680}"));
    push_chars(&mut out, &chars("de"));
    assert_eq!(out, chars("abc\u{1F680}de"));
}

#[test]
fn whitespace_is_what_the_standard_library_calls_whitespace() {
    for n in 0u32..=0x10FFFF {
        if let Some(c) = char::from_u32(n) {
            assert_eq!(is_whitespace(c), c.is_whitespace(), "U+{:04X}", n);
        }
    }
}

#[test]
fn trimming_agrees_with_the_standard_library() {
    let samples = [
        "",
        " ",
        "a",
        "  a  ",
        "\n\na b\t\n",
        "\u{A0}x\u{3000}",
        "\u{2003}\u{2028}",
        "x \u{200B} ",
        "\r\n text \r\n",
    ];
    for s in samples {
        assert_eq!(string_of(&trimmed(&chars(s))), s.trim());
        assert_eq!(string_of(&trimmed_end(&chars(s))), s.trim_end());
        let v = chars(s);
        assert_eq!(trim_end_len(&v), s.trim_end().chars().count());
        assert_eq!(v.len() - trim_start_index(&v, v.len()), s.trim_start().chars().count());
    }
}

#[test]
fn first_word_is_the_first_run_without_whitespace() {
    let samples = ["", "   ", "rust", "rust ignore", "  rust,no_run\tx", "\u{A0}a\u{3000}b", "a\n"];
    for s in samples {
        let expected: Option<Vec<char>> = s.split_whitespace().next().map(|w| w.chars().collect());
        assert_eq!(first_word_of(&chars(s)), expected);
    }
    assert_eq!(first_word_of(&chars("rust ignore")), Some(chars("rust")));
    assert_eq!(first_word_of(&chars(" \t")), None);
}

#[test]
fn slice_copies_the_given_range() {
    let v = chars("hello");
    assert_eq!(slice_chars(&v, 1, 3), chars("el"));
    assert_eq!(slice_chars(&v, 0, 5), chars("hello"));
    assert_eq!(slice_chars(&v, 5, 5), chars(""));
}

#[test]
fn decimal_numerals_have_no_leading_zeros() {
    for n in [0u64, 1, 9, 10, 11, 99, 100, 3000, 999_999_999, u64::MAX] {
        assert_eq!(string_of(&decimal_of(n)), n.to_string());
    }
    assert_eq!(string_of(&decimal_of(u64::MAX)), "18446744073709551615");
}

#[test]
fn padded_numerals_have_at_least_the_width() {
    assert_eq!(string_of(&decimal_padded_of(1, 3)), "001");
    assert_eq!(string_of(&decimal_padded_of(42, 3)), "042");
    assert_eq!(string_of(&decimal_padded_of(999, 3)), "999");
    assert_eq!(string_of(&decimal_padded_of(1000, 3)), "1000");
    assert_eq!(string_of(&decimal_padded_of(0, 0)), "0");
    assert_eq!(string_of(&decimal_padded_of(7, 1)), "7");
}
