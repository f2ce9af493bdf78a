use excmd::args::{from_signature, Flag, ParseError, ParseMode};

fn bv(s: &str) -> Vec<u8> {
    s.as_bytes().to_vec()
}

fn no_flags() -> Vec<Flag> {
    Vec::new()
}

fn flag(long: &str, short: Option<&str>, accepts: Option<&str>) -> Flag {
    Flag {
        long: bv(long),
        short: short.map(bv),
        desc: bv("a flag"),
        accepts: accepts.map(bv),
        completer: None,
    }
}

#[test]
fn positionals_in_order() {
    let a = from_signature(b"one two three", ParseMode::Structured, &no_flags()).unwrap();
    assert_eq!(a.positionals, vec![bv("one"), bv("two"), bv("three")]);
    assert_eq!(a.flags.len(), 0);
}

#[test]
fn long_flag_is_consumed() {
    let decls = vec![flag("no-format", None, None)];
    let a = from_signature(b"--no-format path", ParseMode::Structured, &decls).unwrap();
    assert_eq!(a.positionals, vec![bv("path")]);
    assert!(a.has_flag(b"no-format"));
}

#[test]
fn short_flag_maps_to_long_name() {
    let decls = vec![flag("all", Some("a"), None)];
    let a = from_signature(b"-a", ParseMode::Structured, &decls).unwrap();
    assert!(a.has_flag(b"all"));
    assert_eq!(a.positionals.len(), 0);
}

#[test]
fn value_flag_consumes_next_word() {
    let decls = vec![flag("register", Some("r"), Some("<reg>"))];
    let a = from_signature(b"--register x rest", ParseMode::Structured, &decls).unwrap();
    assert_eq!(a.flag_value(b"register").unwrap(), &bv("x"));
    assert_eq!(a.positionals, vec![bv("rest")]);
}

#[test]
fn unknown_flag_is_a_parse_error() {
    let r = from_signature(b"--bogus", ParseMode::Structured, &no_flags());
    assert!(matches!(r, Err(ParseError::UnknownFlag(t)) if t == bv("--bogus")));
}

#[test]
fn value_flag_at_end_is_a_parse_error() {
    let decls = vec![flag("register", None, Some("<reg>"))];
    let r = from_signature(b"--register", ParseMode::Structured, &decls);
    assert!(matches!(r, Err(ParseError::FlagValueError(l)) if l == bv("register")));
}

#[test]
fn lone_dash_is_positional() {
    let a = from_signature(b"-", ParseMode::Structured, &no_flags()).unwrap();
    assert_eq!(a.positionals, vec![bv("-")]);
}

#[test]
fn literal_mode_keeps_dash_tokens_verbatim() {
    let a = from_signature(b"ls -la /tmp", ParseMode::Literal, &no_flags()).unwrap();
    assert_eq!(a.positionals, vec![bv("ls -la /tmp")]);
    assert_eq!(a.flags.len(), 0);
}

#[test]
fn literal_mode_preserves_inner_spacing() {
    let a = from_signature(b"echo  two   spaces", ParseMode::Literal, &no_flags()).unwrap();
    assert_eq!(a.positionals, vec![bv("echo  two   spaces")]);
}

#[test]
fn literal_mode_of_empty_rest_has_no_arguments() {
    let a = from_signature(b"", ParseMode::Literal, &no_flags()).unwrap();
    assert_eq!(a.positionals.len(), 0);
}

#[test]
fn later_flag_occurrence_wins() {
    let decls = vec![flag("register", None, Some("<reg>"))];
    let a = from_signature(b"--register a --register b", ParseMode::Structured, &decls).unwrap();
    assert_eq!(a.flag_value(b"register").unwrap(), &bv("b"));
}
