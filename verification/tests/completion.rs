use excmd::completers::CompleterKind;
use excmd::completion::{
    completion_request, rank_candidates, remap_suggestions, CompletionRequest, Suggestion,
};
use excmd::defaults::default_registry;
use excmd::shellwords::split_words;

fn bv(s: &str) -> Vec<u8> {
    s.as_bytes().to_vec()
}

#[test]
fn empty_pattern_keeps_all_items_in_order() {
    let items = vec![bv("quit"), bv("open"), bv("write")];
    assert_eq!(rank_candidates(b"", &items), items);
}

#[test]
fn ranking_keeps_only_matching_items() {
    let items = vec![bv("quit"), bv("open"), bv("quit-all")];
    let ranked = rank_candidates(b"qui", &items);
    assert!(ranked.contains(&bv("quit")));
    assert!(ranked.contains(&bv("quit-all")));
    assert!(!ranked.contains(&bv("open")));
}

#[test]
fn partial_command_token_offers_names() {
    let reg = default_registry().unwrap();
    match completion_request(&reg, b"qui") {
        CompletionRequest::Names(names) => {
            assert!(names.contains(&bv("quit")));
            assert!(!names.contains(&bv("open")));
        },
        _ => panic!("expected name candidates"),
    }
}

#[test]
fn empty_line_offers_every_name() {
    let reg = default_registry().unwrap();
    match completion_request(&reg, b"") {
        CompletionRequest::Names(names) => {
            assert_eq!(names.len(), reg.len());
        },
        _ => panic!("expected name candidates"),
    }
}

#[test]
fn trailing_space_moves_to_argument_completion() {
    let reg = default_registry().unwrap();
    match completion_request(&reg, b"open ") {
        CompletionRequest::Argument { completer, slot, word, word_start } => {
            assert_eq!(completer, CompleterKind::Filename);
            assert_eq!(slot, 0);
            assert_eq!(word, Vec::<u8>::new());
            assert_eq!(word_start, 5);
        },
        _ => panic!("expected argument completion"),
    }
}

#[test]
fn partial_word_is_completed_in_place() {
    let reg = default_registry().unwrap();
    match completion_request(&reg, b"open src/ma") {
        CompletionRequest::Argument { completer, slot, word, word_start } => {
            assert_eq!(completer, CompleterKind::Filename);
            assert_eq!(slot, 0);
            assert_eq!(word, bv("src/ma"));
            assert_eq!(word_start, 5);
        },
        _ => panic!("expected argument completion"),
    }
}

#[test]
fn unknown_command_offers_nothing_for_arguments() {
    let reg = default_registry().unwrap();
    assert!(matches!(completion_request(&reg, b"bogus arg"), CompletionRequest::Empty));
}

#[test]
fn second_slot_uses_the_fallback_provider() {
    let reg = default_registry().unwrap();
    match completion_request(&reg, b"set-option mouse ") {
        CompletionRequest::Argument { completer, slot, .. } => {
            assert_eq!(slot, 1);
            assert_eq!(completer, CompleterKind::NoCompletion);
        },
        _ => panic!("expected argument completion"),
    }
}

#[test]
fn remap_offsets_and_escapes_suggestions() {
    let sugs = vec![
        Suggestion { start: 0, text: bv("a file.txt") },
        Suggestion { start: 2, text: bv("plain") },
    ];
    let remapped = remap_suggestions(5, sugs);
    assert_eq!(remapped.len(), 2);
    assert_eq!(remapped[0].start, 5);
    assert_eq!(remapped[0].text, bv("a\\ file.txt"));
    assert_eq!(remapped[1].start, 7);
    assert_eq!(remapped[1].text, bv("plain"));
}

#[test]
fn remapped_suggestion_re_tokenizes_to_itself() {
    let reg = default_registry().unwrap();
    let line = b"open par".to_vec();
    let (word_start, _word) = match completion_request(&reg, &line) {
        CompletionRequest::Argument { word_start, word, .. } => (word_start, word),
        _ => panic!("expected argument completion"),
    };
    // A provider suggests a replacement for the whole partial word.
    let suggestion = bv("path with spaces.txt");
    let remapped = remap_suggestions(word_start, vec![Suggestion { start: 0, text: suggestion.clone() }]);
    let mut new_line = line[..remapped[0].start].to_vec();
    new_line.extend_from_slice(&remapped[0].text);
    let (words, _) = split_words(&new_line);
    assert_eq!(words, vec![bv("open"), suggestion]);
}

#[test]
fn exact_match_ranks_first() {
    let items = vec![bv("xqzuit"), bv("quit"), bv("write")];
    let ranked = rank_candidates(b"quit", &items);
    assert!(!ranked.is_empty());
    assert_eq!(ranked[0], bv("quit"));
}
