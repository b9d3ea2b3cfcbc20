use swiss_knife::gui::text::{chars_of, decimal_string, parse_u64};

#[test]
fn parses_like_std() {
    let cases = [
        "0", "42", "+7", "", "+", "-1", "-0", "18446744073709551615", "18446744073709551616",
        "99999999999999999999999", "1a", " 1", "1 ", "007", "+-1", "١٢",
    ];
    for case in cases {
        assert_eq!(parse_u64(case), case.parse::<u64>().ok(), "{case}");
    }
    assert_eq!(parse_u64("42"), Some(42));
    assert_eq!(parse_u64("+7"), Some(7));
    assert_eq!(parse_u64(""), None);
    assert_eq!(parse_u64("18446744073709551615"), Some(u64::MAX));
    assert_eq!(parse_u64("18446744073709551616"), None);
}

#[test]
fn formats_like_std() {
    for n in [0u64, 7, 10, 99, 100, 1234567, u64::MAX] {
        assert_eq!(decimal_string(n), n.to_string());
    }
    assert_eq!(decimal_string(1234567), "1234567");
}

#[test]
fn decimal_text_reads_back() {
    for n in [0u64, 1, 9, 10, 256, 4096, 1 << 40, u64::MAX] {
        assert_eq!(parse_u64(&decimal_string(n)), Some(n));
    }
}

#[test]
fn splits_into_characters() {
    assert_eq!(chars_of("aé✓"), vec!['a', 'é', '✓']);
    assert_eq!(chars_of(""), Vec::<char>::new());
}
