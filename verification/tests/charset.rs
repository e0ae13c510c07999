use violet_soul::charset::{
    parse_preset, parse_unicode_hex, select_codepoints, CharsetPreset, RangeParseError,
    UnicodeRange,
};

#[test]
fn parse_unicode_hex_should_parse_valid_unicode() {
    assert_eq!(parse_unicode_hex("U+0041"), Some(0x41));
    assert_eq!(parse_unicode_hex("U+4E00"), Some(0x4E00));
    assert_eq!(parse_unicode_hex("U+1F600"), Some(0x1F600));
}

#[test]
fn parse_unicode_hex_should_return_none_for_invalid() {
    assert_eq!(parse_unicode_hex("invalid"), None);
    assert_eq!(parse_unicode_hex("U+GGGG"), None);
}

#[test]
fn parse_unicode_hex_accepts_bare_hex_and_lowercase() {
    assert_eq!(parse_unicode_hex("41"), Some(0x41));
    assert_eq!(parse_unicode_hex("ff"), Some(0xFF));
    assert_eq!(parse_unicode_hex(""), None);
    assert_eq!(parse_unicode_hex("U+"), None);
}

#[test]
fn parse_unicode_hex_rejects_overflow() {
    assert_eq!(parse_unicode_hex("U+FFFFFFFF"), Some(0xFFFF_FFFF));
    assert_eq!(parse_unicode_hex("U+100000000"), None);
}

#[test]
fn unicode_range_parse_accepts_well_formed_ranges() {
    let r = UnicodeRange::parse("0x4E00-0x9FFF").unwrap();
    assert_eq!(r.start, 0x4E00);
    assert_eq!(r.end, 0x9FFF);
    let r = UnicodeRange::parse("20-7F").unwrap();
    assert_eq!(r.start, 0x20);
    assert_eq!(r.end, 0x7F);
}

#[test]
fn unicode_range_parse_rejects_malformed_input() {
    assert_eq!(
        UnicodeRange::parse("0x4E00").unwrap_err(),
        RangeParseError::Format
    );
    assert_eq!(
        UnicodeRange::parse("1-2-3").unwrap_err(),
        RangeParseError::Format
    );
    assert_eq!(
        UnicodeRange::parse("0xZZ-0x10").unwrap_err(),
        RangeParseError::Digit
    );
    assert_eq!(
        UnicodeRange::parse("0x9FFF-0x4E00").unwrap_err(),
        RangeParseError::Order
    );
}

#[test]
fn unicode_range_contains_is_inclusive() {
    let r = UnicodeRange { start: 0x20, end: 0x7F };
    assert!(r.contains(0x20));
    assert!(r.contains(0x7F));
    assert!(r.contains(0x41));
    assert!(!r.contains(0x1F));
    assert!(!r.contains(0x80));
}

#[test]
fn charset_preset_from_str_resolves_known_names() {
    assert!(matches!(
        CharsetPreset::from_str("latin"),
        Some(CharsetPreset::Latin)
    ));
    assert!(matches!(
        CharsetPreset::from_str("latin-extended"),
        Some(CharsetPreset::LatinExtended)
    ));
    assert!(matches!(
        CharsetPreset::from_str("cjk-basic"),
        Some(CharsetPreset::CjkBasic)
    ));
    assert!(matches!(
        CharsetPreset::from_str("cjk-common"),
        Some(CharsetPreset::CjkCommon)
    ));
    assert!(matches!(
        CharsetPreset::from_str("cjk-full"),
        Some(CharsetPreset::CjkFull)
    ));
    assert!(CharsetPreset::from_str("klingon").is_none());
}

#[test]
fn charset_preset_ranges_and_limits() {
    let r = CharsetPreset::Latin.get_range();
    assert_eq!((r.start, r.end), (0x20, 0x7F));
    let r = CharsetPreset::CjkCommon.get_range();
    assert_eq!((r.start, r.end), (0x4E00, 0x9FFF));
    let r = CharsetPreset::CjkFull.get_range();
    assert_eq!((r.start, r.end), (0x4E00, 0x9FFF));
    assert_eq!(CharsetPreset::CjkBasic.get_limit(), Some(500));
    assert_eq!(CharsetPreset::CjkCommon.get_limit(), Some(3000));
    assert_eq!(CharsetPreset::Latin.get_limit(), None);
    assert_eq!(CharsetPreset::CjkFull.get_limit(), None);
}

#[test]
fn select_codepoints_prefers_chars_then_range_then_preset() {
    let all: Vec<u32> = vec![0x20, 0x41, 0x42, 0x43, 0x4E00, 0x4E01, 0x9FFF];

    // Explicit characters keep only what the font offers.
    let picked = select_codepoints(all.clone(), Some("AZB"), None, None, None).unwrap();
    assert_eq!(picked, vec![0x41, 0x42]);

    // A range expression filters the repertoire in font order.
    let picked =
        select_codepoints(all.clone(), None, Some("0x4E00-0x9FFF"), None, None).unwrap();
    assert_eq!(picked, vec![0x4E00, 0x4E01, 0x9FFF]);

    // A preset applies its range, and the explicit limit cuts afterwards.
    let picked = select_codepoints(
        all.clone(),
        None,
        None,
        Some(CharsetPreset::CjkCommon),
        Some(2),
    )
    .unwrap();
    assert_eq!(picked, vec![0x4E00, 0x4E01]);

    // With nothing requested, everything is taken.
    let picked = select_codepoints(all.clone(), None, None, None, None).unwrap();
    assert_eq!(picked, all);

    // A bad range expression surfaces as a parse error.
    assert_eq!(
        select_codepoints(all, None, Some("nope"), None, None).unwrap_err(),
        RangeParseError::Format
    );
}

#[test]
fn parse_preset_reports_invalid_names() {
    assert!(matches!(parse_preset("latin"), Ok(CharsetPreset::Latin)));
    assert!(parse_preset("greek").is_err());
}
