use violet_soul::bytes::{bytes_to_string, contains_bytes, ct_eq, str_eq, sub_bytes, trim_text_of};

#[test]
fn ct_eq_compares_whole_buffers() {
    assert!(ct_eq(b"abc", b"abc"));
    assert!(!ct_eq(b"abc", b"abd"));
    assert!(!ct_eq(b"abc", b"ab"));
    assert!(ct_eq(b"", b""));
    assert!(!ct_eq(b"\x00", b""));
}

#[test]
fn contains_bytes_finds_substrings() {
    assert!(contains_bytes(b"hello world", b"o w"));
    assert!(contains_bytes(b"hello world", b"hello"));
    assert!(contains_bytes(b"hello world", b"world"));
    assert!(contains_bytes(b"hello world", b""));
    assert!(!contains_bytes(b"hello world", b"worlds"));
    assert!(!contains_bytes(b"hi", b"hello"));
}

#[test]
fn trim_text_of_strips_what_str_trim_strips() {
    assert_eq!(trim_text_of("  {}\n\t"), "{}".chars().collect::<Vec<char>>());
    assert_eq!(trim_text_of("{}"), "{}".chars().collect::<Vec<char>>());
    assert_eq!(trim_text_of(" \t\r\n"), Vec::<char>::new());
    assert_eq!(trim_text_of(""), Vec::<char>::new());
    assert_eq!(trim_text_of("a b"), "a b".chars().collect::<Vec<char>>());
    // Unicode whitespace is trimmed too, exactly as `str::trim` does it.
    for sample in ["\u{a0}{}\u{2003}", "\u{1680}x\u{3000}", " mixed\u{2028} ", "\u{85}"] {
        assert_eq!(
            trim_text_of(sample),
            sample.trim().chars().collect::<Vec<char>>()
        );
    }
}

#[test]
fn sub_bytes_copies_the_requested_range() {
    assert_eq!(sub_bytes(b"abcdef", 1, 4), b"bcd".to_vec());
    assert_eq!(sub_bytes(b"abcdef", 0, 0), Vec::<u8>::new());
}

#[test]
fn bytes_to_string_accepts_exactly_utf8() {
    assert_eq!(bytes_to_string(b"caf\xc3\xa9"), Some("café".to_string()));
    assert_eq!(bytes_to_string(&[0xFF, 0xFE]), None);
    assert_eq!(bytes_to_string(b""), Some(String::new()));
}

#[test]
fn str_eq_is_string_equality() {
    assert!(str_eq("latin", "latin"));
    assert!(!str_eq("latin", "latin-extended"));
    assert!(!str_eq("", "a"));
}
