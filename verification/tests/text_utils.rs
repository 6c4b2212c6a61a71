use usvg_core::text::{
    char_is_whitespace, contains_name, is_word_separator_characters, parse_u32, push_decimal,
    split_str, str_eq, trim_str,
};

#[test]
fn str_eq_compares_characters() {
    assert!(str_eq("abc", "abc"));
    assert!(!str_eq("abc", "abd"));
    assert!(!str_eq("abc", "ab"));
    assert!(str_eq("", ""));
    assert!(str_eq("\u{00e9}t\u{00e9}", "\u{00e9}t\u{00e9}"));
}

#[test]
fn push_decimal_writes_digits() {
    let mut s = String::from("n");
    push_decimal(0, &mut s);
    assert_eq!(s, "n0");
    let mut s = String::new();
    push_decimal(1203, &mut s);
    assert_eq!(s, "1203");
    let mut s = String::new();
    push_decimal(usize::MAX, &mut s);
    assert_eq!(s, usize::MAX.to_string());
}

#[test]
fn contains_name_finds_exact_names() {
    let names = vec!["a".to_string(), "clipPath1".to_string()];
    assert!(contains_name(&names, "clipPath1"));
    assert!(!contains_name(&names, "clipPath"));
    assert!(!contains_name(&Vec::new(), "a"));
}

#[test]
fn trim_matches_std_trim() {
    for s in ["", "  ", " en ", "\t\nru-RU\r ", "a b", "\u{3000}x\u{3000}", "\u{00a0}y"] {
        assert_eq!(trim_str(s), s.trim(), "{:?}", s);
        for c in s.chars() {
            assert_eq!(char_is_whitespace(c), c.is_whitespace());
        }
    }
    assert!(char_is_whitespace('\u{2028}'));
    assert!(!char_is_whitespace('x'));
}

#[test]
fn split_matches_std_split() {
    for s in ["", ",", "en,ru", "a,,b,", " en , fr "] {
        let ours: Vec<&str> = split_str(s, ',');
        let std: Vec<&str> = s.split(',').collect();
        assert_eq!(ours, std, "{:?}", s);
    }
}

#[test]
fn parse_u32_matches_std_parse() {
    for s in [
        "0", "7", "+7", "0042", "4294967295", "4294967296", "99999999999", "", "+", "-1", " 1",
        "1 ", "1.5", "12a", "\u{0661}",
    ] {
        assert_eq!(parse_u32(s), s.parse::<u32>().ok(), "{:?}", s);
    }
}

#[test]
fn word_separators() {
    for c in [' ', '\u{00A0}', '\u{1361}', '\u{10100}', '\u{10101}', '\u{1039F}', '\u{1091F}'] {
        assert!(is_word_separator_characters(c));
    }
    for c in ['a', '\t', '\n', '\u{2009}', '\u{3000}', '-'] {
        assert!(!is_word_separator_characters(c));
    }
}
