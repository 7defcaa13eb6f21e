use mediachat_native::wide::{is_whitespace_char, to_wide_nul, trim_trailing_nul, trim_whitespace};

#[test]
fn wide_nul_of_ascii() {
    assert_eq!(to_wide_nul("Error"), vec![69, 114, 114, 111, 114, 0]);
}

#[test]
fn wide_nul_of_empty() {
    assert_eq!(to_wide_nul(""), vec![0]);
}

#[test]
fn wide_nul_matches_std_encoding() {
    let samples = ["Invalid URL to parse", "é€𝄞 mixte 😀", "\u{FFFF}\u{10000}\u{10FFFF}"];
    for s in samples.iter() {
        let mut expected: Vec<u16> = s.encode_utf16().collect();
        expected.push(0);
        assert_eq!(to_wide_nul(s), expected);
    }
}

#[test]
fn wide_nul_surrogate_pair() {
    assert_eq!(to_wide_nul("😀"), vec![0xD83D, 0xDE00, 0]);
}

#[test]
fn trailing_nuls_are_removed() {
    assert_eq!(trim_trailing_nul("DELL U2419H\0\0\0"), "DELL U2419H");
}

#[test]
fn inner_nul_is_kept() {
    assert_eq!(trim_trailing_nul("a\0b\0"), "a\0b");
}

#[test]
fn only_nuls_give_empty() {
    assert_eq!(trim_trailing_nul("\0\0"), "");
}

#[test]
fn trim_matches_std_trim() {
    let samples = ["  https://example.com  ", "\t\nx\r\n", "\u{3000}y\u{205F}", "   ", "", "a b"];
    for s in samples.iter() {
        assert_eq!(trim_whitespace(s), s.trim());
    }
}

#[test]
fn whitespace_table_matches_std() {
    for v in 0u32..0x3100 {
        if let Some(c) = char::from_u32(v) {
            assert_eq!(is_whitespace_char(c), c.is_whitespace(), "code point {:x}", v);
        }
    }
    assert!(!is_whitespace_char('\u{10FFFF}'));
    assert!(!is_whitespace_char('\u{FEFF}'));
}
