use excmd::charinfo::{character_report, code_points, hex_dump, hex_pad4, printable};

fn bv(s: &str) -> Vec<u8> {
    s.as_bytes().to_vec()
}

#[test]
fn printable_escapes_control_characters() {
    assert_eq!(printable(b"a\tb\n"), bv("a\\tb\\n"));
    assert_eq!(printable(b"\0"), bv("\\0"));
    assert_eq!(printable(b"plain"), bv("plain"));
}

#[test]
fn code_points_of_ascii() {
    assert_eq!(code_points(b"Ab"), vec![0x41, 0x62]);
}

#[test]
fn code_points_of_multibyte_characters() {
    // U+00E9, U+20AC, U+1F600 in UTF-8.
    let text = "\u{e9}\u{20ac}\u{1f600}";
    assert_eq!(code_points(text.as_bytes()), vec![0xe9, 0x20ac, 0x1f600]);
}

#[test]
fn hex_pads_to_four_digits() {
    assert_eq!(hex_pad4(0x41), bv("0041"));
    assert_eq!(hex_pad4(0x20ac), bv("20ac"));
    assert_eq!(hex_pad4(0x1f600), bv("1f600"));
}

#[test]
fn hex_dump_joins_character_groups() {
    let groups = vec![bv("A"), vec![0xc3, 0xa9]];
    assert_eq!(hex_dump(&groups), bv(" 41 + c3 a9"));
}

#[test]
fn ascii_report_shows_quotes_codepoint_dec_and_hex() {
    let report = character_report(b"a", &vec![bv("a")], true, true);
    assert_eq!(String::from_utf8(report).unwrap(), "\"a\" (U+0061) Dec 97 Hex 61");
}

#[test]
fn multibyte_report_has_no_dec() {
    let euro = "\u{20ac}";
    let report = character_report(euro.as_bytes(), &vec![euro.as_bytes().to_vec()], true, true);
    assert_eq!(String::from_utf8(report).unwrap(), "\"\u{20ac}\" (U+20ac) Hex e2 82 ac");
}

#[test]
fn non_utf8_document_report_skips_codepoints() {
    let report = character_report(b"a", &vec![bv("a")], false, true);
    assert_eq!(String::from_utf8(report).unwrap(), "\"a\" Dec 97 Hex 61");
}
