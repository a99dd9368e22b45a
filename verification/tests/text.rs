use tapo_rest::text::{
    bytes_of, chars_of, is_char_boundary, is_white_space, join, split, string_of, to_ascii_lower, to_decimal, trim,
};

fn parts(s: &str, sep: char) -> Vec<String> {
    split(&chars_of(s), sep).iter().map(string_of).collect()
}

#[test]
fn white_space_is_the_unicode_property() {
    for n in 0..=0x10ffffu32 {
        if let Some(c) = char::from_u32(n) {
            assert_eq!(is_white_space(c), c.is_whitespace(), "U+{n:04X}");
        }
    }
}

#[test]
fn trim_removes_whitespace_at_both_ends_only() {
    for s in ["", " ", " \t\n", "a", " a b ", "\u{3000}x\u{a0}", "x\u{200b}", "é "] {
        assert_eq!(trim(s), s.trim());
        assert_eq!(trim(trim(s)), trim(s));
    }
    assert_eq!(trim("\t two words \r\n"), "two words");
}

#[test]
fn split_gives_every_piece() {
    assert_eq!(parts("", ','), vec![""]);
    assert_eq!(parts("a", ','), vec!["a"]);
    assert_eq!(parts(",a,,b,", ','), vec!["", "a", "", "b", ""]);
}

#[test]
fn split_and_join_give_the_text_back() {
    for s in ["", ",", "a,b", ",,é,c,", "no separator"] {
        assert_eq!(join(&parts(s, ','), ","), s);
    }
}

#[test]
fn join_puts_the_separator_between() {
    assert_eq!(join(&vec![], ", "), "");
    assert_eq!(join(&vec!["a".to_string()], ", "), "a");
    assert_eq!(join(&vec!["a".to_string(), "b".to_string(), "".to_string()], ", "), "a, b, ");
}

#[test]
fn lower_case_is_ascii_only() {
    assert_eq!(to_ascii_lower("AZaz[@É9"), "azaz[@É9");
}

#[test]
fn decimal_numbers() {
    for n in [0u64, 7, 10, 99, 100, 4667, 65535, u64::MAX] {
        assert_eq!(to_decimal(n), n.to_string());
    }
}

#[test]
fn places_between_whole_characters() {
    for c in ['a', '\u{7f}', '\u{80}', '\u{7ff}', '\u{800}', '\u{ffff}', '\u{10000}', '\u{10ffff}'] {
        assert_eq!(bytes_of(c), c.len_utf8() as u128);
    }
    let text = "a\u{e9}\u{2003}\u{1f600}b";
    for at in 0..text.len() + 3 {
        let expected = text.is_char_boundary(at);
        assert_eq!(is_char_boundary(&text.chars().collect(), at as u128), expected);
    }
}
