use excmd::textformat::{
    indent_style_label, line_ending_label, parse_indent_style, parse_line_ending, IndentStyle,
    LineEnding,
};

fn bv(s: &str) -> Vec<u8> {
    s.as_bytes().to_vec()
}

#[test]
fn line_ending_arguments() {
    assert_eq!(parse_line_ending(b"crlf"), Some(LineEnding::Crlf));
    assert_eq!(parse_line_ending(b"CRLF"), Some(LineEnding::Crlf));
    assert_eq!(parse_line_ending(b"lf"), Some(LineEnding::Lf));
    assert_eq!(parse_line_ending(b"lfxx"), Some(LineEnding::Lf));
    assert_eq!(parse_line_ending(b"cr"), None);
    assert_eq!(parse_line_ending(b"unix"), None);
}

#[test]
fn line_ending_labels() {
    assert_eq!(line_ending_label(LineEnding::Crlf), bv("crlf"));
    assert_eq!(line_ending_label(LineEnding::Lf), bv("line feed"));
}

#[test]
fn indent_style_arguments() {
    assert_eq!(parse_indent_style(b"tabs"), Some(IndentStyle::Tabs));
    assert_eq!(parse_indent_style(b"t"), Some(IndentStyle::Tabs));
    assert_eq!(parse_indent_style(b"TA"), Some(IndentStyle::Tabs));
    assert_eq!(parse_indent_style(b"0"), Some(IndentStyle::Tabs));
    assert_eq!(parse_indent_style(b"4"), Some(IndentStyle::Spaces(4)));
    assert_eq!(parse_indent_style(b"16"), Some(IndentStyle::Spaces(16)));
    assert_eq!(parse_indent_style(b"17"), None);
    assert_eq!(parse_indent_style(b"wide"), None);
}

#[test]
fn indent_style_labels() {
    assert_eq!(indent_style_label(IndentStyle::Tabs), bv("tabs"));
    assert_eq!(indent_style_label(IndentStyle::Spaces(1)), bv("1 space"));
    assert_eq!(indent_style_label(IndentStyle::Spaces(4)), bv("4 spaces"));
}
