use excmd::completion::argument_number_of;
use excmd::shellwords::{escape, split_words, Shellwords};

fn bv(s: &str) -> Vec<u8> {
    s.as_bytes().to_vec()
}

fn words_of(s: &str) -> Vec<Vec<u8>> {
    split_words(s.as_bytes()).0
}

#[test]
fn test_argument_number_of() {
    let cases = vec![
        ("set-option", 0),
        ("set-option ", 0),
        ("set-option a", 0),
        ("set-option asdf", 0),
        ("set-option asdf ", 1),
        ("set-option asdf xyz", 1),
        ("set-option asdf xyz abc", 2),
        ("set-option asdf xyz abc ", 3),
    ];

    for case in cases {
        assert_eq!(case.1, argument_number_of(&Shellwords::from_line(case.0.as_bytes())));
    }
}

#[test]
fn splits_on_whitespace() {
    assert_eq!(words_of("open a.txt  b.txt"), vec![bv("open"), bv("a.txt"), bv("b.txt")]);
}

#[test]
fn empty_line_has_no_words() {
    assert_eq!(words_of(""), Vec::<Vec<u8>>::new());
    assert_eq!(words_of("   "), Vec::<Vec<u8>>::new());
}

#[test]
fn single_quotes_join_words() {
    assert_eq!(words_of("open 'a file.txt'"), vec![bv("open"), bv("a file.txt")]);
}

#[test]
fn double_quotes_join_words_and_unescape() {
    assert_eq!(words_of("echo \"say \\\"hi\\\"\""), vec![bv("echo"), bv("say \"hi\"")]);
}

#[test]
fn backslash_escapes_a_space() {
    assert_eq!(words_of("open a\\ b.txt"), vec![bv("open"), bv("a b.txt")]);
}

#[test]
fn command_and_rest_split() {
    let sw = Shellwords::from_line(b"write  some/path.txt extra");
    assert_eq!(sw.command, bv("write"));
    assert_eq!(sw.rest, bv("some/path.txt extra"));
    assert_eq!(sw.rest_off, 7);
    assert!(!sw.trailing_ws);
}

#[test]
fn trailing_whitespace_flag() {
    assert!(Shellwords::from_line(b"write ").trailing_ws);
    assert!(!Shellwords::from_line(b"write").trailing_ws);
    assert!(!Shellwords::from_line(b"open a\\ ").trailing_ws);
}

#[test]
fn escape_round_trips_through_the_tokenizer() {
    for case in ["plain", "with space", "qu'ote", "do\"uble", "back\\slash", "a b\tc"] {
        let escaped = escape(case.as_bytes());
        let (words, _) = split_words(&escaped);
        assert_eq!(words, vec![bv(case)]);
    }
}

#[test]
fn escape_inserted_after_prefix_round_trips() {
    let prefix = b"open ".to_vec();
    let suggestion = "dir with spaces/file.txt";
    let escaped = escape(suggestion.as_bytes());
    let mut line = prefix.clone();
    line.extend_from_slice(&escaped);
    let (words, _) = split_words(&line);
    assert_eq!(words, vec![bv("open"), bv(suggestion)]);
}
