use excmd::defaults::default_registry;
use excmd::dispatch::{on_prompt_event, CommandError, Effect};
use excmd::editor::{Document, Editor, Pane};
use excmd::event::PromptEvent;
use excmd::options::{ConfigEntry, OptionValue};

fn bv(s: &str) -> Vec<u8> {
    s.as_bytes().to_vec()
}

fn doc(id: u64, path: Option<&str>, modified: bool, lines: usize) -> Document {
    Document { id, path: path.map(bv), modified, lines }
}

fn editor_with(documents: Vec<Document>, views: Vec<Pane>) -> Editor {
    let next = documents.iter().map(|d| d.id).max().unwrap_or(0) + 1;
    Editor {
        documents,
        views,
        focused: 0,
        last_selection: None,
        config: vec![
            ConfigEntry { key: bv("mouse"), value: OptionValue::Bool(true) },
            ConfigEntry { key: bv("line-number"), value: OptionValue::Str(bv("absolute")) },
            ConfigEntry { key: bv("text-width"), value: OptionValue::Int(80) },
            ConfigEntry {
                key: bv("gutters"),
                value: OptionValue::List(vec![bv("diff")]),
            },
        ],
        next_doc_id: next,
        exit_code: 0,
    }
}

#[test]
fn quit_with_two_views_closes_exactly_one_view() {
    let reg = default_registry().unwrap();
    let mut ed = editor_with(
        vec![doc(1, Some("a.txt"), false, 10), doc(2, Some("b.txt"), false, 10)],
        vec![
            Pane { id: 10, doc: 1, cursor_line: 1 },
            Pane { id: 11, doc: 2, cursor_line: 1 },
        ],
    );
    let out = on_prompt_event(&reg, &mut ed, b"quit", PromptEvent::Validate);
    assert!(out.error.is_none());
    assert_eq!(ed.views.len(), 1);
    assert_eq!(ed.documents.len(), 2);
}

#[test]
fn quit_last_view_with_unsaved_buffer_names_it_and_closes_nothing() {
    let reg = default_registry().unwrap();
    let mut ed = editor_with(
        vec![doc(1, Some("a.txt"), true, 10)],
        vec![Pane { id: 10, doc: 1, cursor_line: 1 }],
    );
    let out = on_prompt_event(&reg, &mut ed, b"quit", PromptEvent::Validate);
    match out.error {
        Some(CommandError::Handler { message }) => {
            let text = String::from_utf8(message).unwrap();
            assert_eq!(text, "1 unsaved buffer remaining: [\"a.txt\"]");
        },
        other => panic!("expected a handler error, got {:?}", other.is_some()),
    }
    assert_eq!(ed.views.len(), 1);
    assert_eq!(ed.documents.len(), 1);
}

#[test]
fn unknown_command_on_validate_errs_and_leaves_state_unchanged() {
    let reg = default_registry().unwrap();
    let mut ed = editor_with(
        vec![doc(1, Some("a.txt"), false, 10)],
        vec![Pane { id: 10, doc: 1, cursor_line: 3 }],
    );
    let out = on_prompt_event(&reg, &mut ed, b"nosuchcommand", PromptEvent::Validate);
    match out.error {
        Some(CommandError::UnknownCommand { name }) => assert_eq!(name, bv("nosuchcommand")),
        _ => panic!("expected an unknown-command error"),
    }
    assert_eq!(ed.views[0].cursor_line, 3);
    assert_eq!(ed.views.len(), 1);
    assert_eq!(ed.documents.len(), 1);
}

#[test]
fn unknown_command_on_update_is_swallowed() {
    let reg = default_registry().unwrap();
    let mut ed = editor_with(
        vec![doc(1, Some("a.txt"), false, 10)],
        vec![Pane { id: 10, doc: 1, cursor_line: 3 }],
    );
    let out = on_prompt_event(&reg, &mut ed, b"nosuchcommand", PromptEvent::Update);
    assert!(out.error.is_none());
    assert!(out.status.is_none());
}

#[test]
fn goto_preview_and_abort_restore_cursor_exactly() {
    let reg = default_registry().unwrap();
    let mut ed = editor_with(
        vec![doc(1, Some("a.txt"), false, 100)],
        vec![Pane { id: 10, doc: 1, cursor_line: 7 }],
    );
    let out = on_prompt_event(&reg, &mut ed, b"4", PromptEvent::Update);
    assert!(out.error.is_none());
    assert_eq!(ed.views[0].cursor_line, 4);
    let out = on_prompt_event(&reg, &mut ed, b"42", PromptEvent::Update);
    assert!(out.error.is_none());
    assert_eq!(ed.views[0].cursor_line, 42);
    let out = on_prompt_event(&reg, &mut ed, b"42", PromptEvent::Abort);
    assert!(out.error.is_none());
    assert_eq!(ed.views[0].cursor_line, 7);
    assert!(ed.last_selection.is_none());
}

#[test]
fn goto_validate_commits_the_move() {
    let reg = default_registry().unwrap();
    let mut ed = editor_with(
        vec![doc(1, Some("a.txt"), false, 100)],
        vec![Pane { id: 10, doc: 1, cursor_line: 7 }],
    );
    let out = on_prompt_event(&reg, &mut ed, b"42", PromptEvent::Validate);
    assert!(out.error.is_none());
    assert_eq!(ed.views[0].cursor_line, 42);
    assert!(ed.last_selection.is_none());
}

#[test]
fn goto_clamps_to_the_document() {
    let reg = default_registry().unwrap();
    let mut ed = editor_with(
        vec![doc(1, Some("a.txt"), false, 10)],
        vec![Pane { id: 10, doc: 1, cursor_line: 2 }],
    );
    on_prompt_event(&reg, &mut ed, b"9999", PromptEvent::Validate);
    assert_eq!(ed.views[0].cursor_line, 10);
}

#[test]
fn arity_error_is_raised_only_on_validate() {
    let reg = default_registry().unwrap();
    let mut ed = editor_with(
        vec![doc(1, Some("a.txt"), false, 10)],
        vec![Pane { id: 10, doc: 1, cursor_line: 1 }],
    );
    let out = on_prompt_event(&reg, &mut ed, b"quit extra", PromptEvent::Update);
    assert!(out.error.is_none());
    let out = on_prompt_event(&reg, &mut ed, b"quit extra", PromptEvent::Validate);
    match out.error {
        Some(CommandError::Arity(a)) => {
            assert_eq!(a.message(), bv("`:quit` doesn't take any arguments"));
        },
        _ => panic!("expected an arity error"),
    }
    assert_eq!(ed.views.len(), 1);
}

#[test]
fn parse_error_is_swallowed_on_update_and_surfaced_on_validate() {
    let reg = default_registry().unwrap();
    let mut ed = editor_with(
        vec![doc(1, Some("a.txt"), false, 10)],
        vec![Pane { id: 10, doc: 1, cursor_line: 1 }],
    );
    let out = on_prompt_event(&reg, &mut ed, b"write --bogus", PromptEvent::Update);
    assert!(out.error.is_none());
    let out = on_prompt_event(&reg, &mut ed, b"write --bogus", PromptEvent::Validate);
    assert!(matches!(out.error, Some(CommandError::Parse(_))));
}

#[test]
fn external_command_is_handed_back_with_parsed_arguments() {
    let reg = default_registry().unwrap();
    let mut ed = editor_with(
        vec![doc(1, Some("a.txt"), false, 10)],
        vec![Pane { id: 10, doc: 1, cursor_line: 1 }],
    );
    let out = on_prompt_event(&reg, &mut ed, b"open a.txt b.txt", PromptEvent::Validate);
    assert!(out.error.is_none());
    assert_eq!(out.effects.len(), 1);
    match &out.effects[0] {
        Effect::Invoke { name, args, event } => {
            assert_eq!(name, &bv("open"));
            assert_eq!(args.positionals, vec![bv("a.txt"), bv("b.txt")]);
            assert_eq!(*event, PromptEvent::Validate);
        },
        _ => panic!("expected an invoke effect"),
    }
}

#[test]
fn literal_command_gets_the_line_verbatim() {
    let reg = default_registry().unwrap();
    let mut ed = editor_with(
        vec![doc(1, Some("a.txt"), false, 10)],
        vec![Pane { id: 10, doc: 1, cursor_line: 1 }],
    );
    let out = on_prompt_event(&reg, &mut ed, b"sh ls -la  /tmp", PromptEvent::Validate);
    assert!(out.error.is_none());
    match &out.effects[0] {
        Effect::Invoke { name, args, .. } => {
            assert_eq!(name, &bv("run-shell-command"));
            assert_eq!(args.positionals, vec![bv("ls -la  /tmp")]);
        },
        _ => panic!("expected an invoke effect"),
    }
}

#[test]
fn buffer_close_others_keeps_only_the_focused_buffer() {
    let reg = default_registry().unwrap();
    let mut ed = editor_with(
        vec![
            doc(1, Some("a.txt"), false, 10),
            doc(2, Some("b.txt"), false, 10),
            doc(3, Some("c.txt"), false, 10),
        ],
        vec![Pane { id: 10, doc: 2, cursor_line: 1 }],
    );
    let out = on_prompt_event(&reg, &mut ed, b"buffer-close-others", PromptEvent::Validate);
    assert!(out.error.is_none());
    assert_eq!(ed.documents.len(), 1);
    assert_eq!(ed.documents[0].id, 2);
}

#[test]
fn buffer_close_all_leaves_a_fresh_scratch_buffer() {
    let reg = default_registry().unwrap();
    let mut ed = editor_with(
        vec![doc(1, Some("a.txt"), false, 10), doc(2, Some("b.txt"), false, 10)],
        vec![Pane { id: 10, doc: 1, cursor_line: 1 }],
    );
    let out = on_prompt_event(&reg, &mut ed, b"buffer-close-all", PromptEvent::Validate);
    assert!(out.error.is_none());
    assert_eq!(ed.documents.len(), 1);
    assert_eq!(ed.documents[0].path, None);
    assert!(!ed.documents[0].modified);
    assert_eq!(ed.views[0].doc, ed.documents[0].id);
}

#[test]
fn buffer_close_blocked_by_unsaved_changes() {
    let reg = default_registry().unwrap();
    let mut ed = editor_with(
        vec![doc(1, Some("a.txt"), true, 10), doc(2, Some("b.txt"), false, 10)],
        vec![Pane { id: 10, doc: 2, cursor_line: 1 }],
    );
    let out = on_prompt_event(&reg, &mut ed, b"buffer-close a.txt", PromptEvent::Validate);
    match out.error {
        Some(CommandError::Handler { message }) => {
            assert_eq!(String::from_utf8(message).unwrap(), "1 unsaved buffer remaining: [\"a.txt\"]");
        },
        _ => panic!("expected a handler error"),
    }
    assert_eq!(ed.documents.len(), 2);
    // Focus switched to the blocked buffer.
    assert_eq!(ed.views[0].doc, 1);
}

#[test]
fn buffer_close_nonexistent_buffer_reports_it() {
    let reg = default_registry().unwrap();
    let mut ed = editor_with(
        vec![doc(1, Some("a.txt"), false, 10)],
        vec![Pane { id: 10, doc: 1, cursor_line: 1 }],
    );
    let out = on_prompt_event(&reg, &mut ed, b"buffer-close nope.txt", PromptEvent::Validate);
    match out.error {
        Some(CommandError::Handler { message }) => {
            assert_eq!(
                String::from_utf8(message).unwrap(),
                "cannot close non-existent buffers: 'nope.txt'"
            );
        },
        _ => panic!("expected a handler error"),
    }
}

#[test]
fn write_all_plans_saves_and_marks_buffers_clean() {
    let reg = default_registry().unwrap();
    let mut ed = editor_with(
        vec![
            doc(1, Some("a.txt"), true, 10),
            doc(2, Some("b.txt"), false, 10),
            doc(3, Some("c.txt"), true, 10),
        ],
        vec![Pane { id: 10, doc: 1, cursor_line: 1 }],
    );
    let out = on_prompt_event(&reg, &mut ed, b"write-all", PromptEvent::Validate);
    assert!(out.error.is_none());
    let saved: Vec<u64> = out
        .effects
        .iter()
        .map(|e| match e {
            Effect::Save { doc } => *doc,
            _ => panic!("expected a save effect"),
        })
        .collect();
    assert_eq!(saved, vec![1, 3]);
    assert!(ed.documents.iter().all(|d| !d.modified));
}

#[test]
fn write_quit_all_saves_then_closes_all_views() {
    let reg = default_registry().unwrap();
    let mut ed = editor_with(
        vec![doc(1, Some("a.txt"), true, 10)],
        vec![Pane { id: 10, doc: 1, cursor_line: 1 }],
    );
    let out = on_prompt_event(&reg, &mut ed, b"write-quit-all", PromptEvent::Validate);
    assert!(out.error.is_none());
    assert_eq!(out.effects.len(), 1);
    assert_eq!(ed.views.len(), 0);
}

#[test]
fn cquit_sets_the_exit_code() {
    let reg = default_registry().unwrap();
    let mut ed = editor_with(
        vec![doc(1, Some("a.txt"), false, 10)],
        vec![Pane { id: 10, doc: 1, cursor_line: 1 }],
    );
    let out = on_prompt_event(&reg, &mut ed, b"cquit 3", PromptEvent::Validate);
    assert!(out.error.is_none());
    assert_eq!(ed.exit_code, 3);
    assert_eq!(ed.views.len(), 0);
}

#[test]
fn cquit_with_a_non_numeric_code_is_a_value_error() {
    let reg = default_registry().unwrap();
    let mut ed = editor_with(
        vec![doc(1, Some("a.txt"), false, 10)],
        vec![Pane { id: 10, doc: 1, cursor_line: 1 }],
    );
    let out = on_prompt_event(&reg, &mut ed, b"cquit abc", PromptEvent::Validate);
    match out.error {
        Some(CommandError::ValueParse { input }) => assert_eq!(input, bv("abc")),
        _ => panic!("expected a value-parse error"),
    }
    assert_eq!(ed.exit_code, 0);
    assert_eq!(ed.views.len(), 1);
}

#[test]
fn cquit_with_an_oversized_code_is_a_value_error() {
    let reg = default_registry().unwrap();
    let mut ed = editor_with(
        vec![doc(1, Some("a.txt"), false, 10)],
        vec![Pane { id: 10, doc: 1, cursor_line: 1 }],
    );
    let out = on_prompt_event(&reg, &mut ed, b"cquit 99999999999", PromptEvent::Validate);
    assert!(matches!(out.error, Some(CommandError::ValueParse { .. })));
    assert_eq!(ed.views.len(), 1);
}

#[test]
fn cquit_defaults_to_one() {
    let reg = default_registry().unwrap();
    let mut ed = editor_with(
        vec![doc(1, Some("a.txt"), false, 10)],
        vec![Pane { id: 10, doc: 1, cursor_line: 1 }],
    );
    on_prompt_event(&reg, &mut ed, b"cquit", PromptEvent::Validate);
    assert_eq!(ed.exit_code, 1);
}

#[test]
fn echo_reports_its_argument() {
    let reg = default_registry().unwrap();
    let mut ed = editor_with(
        vec![doc(1, Some("a.txt"), false, 10)],
        vec![Pane { id: 10, doc: 1, cursor_line: 1 }],
    );
    let out = on_prompt_event(&reg, &mut ed, b"echo hello  there", PromptEvent::Validate);
    assert_eq!(out.status.unwrap(), bv("hello  there"));
}

#[test]
fn empty_line_does_nothing() {
    let reg = default_registry().unwrap();
    let mut ed = editor_with(
        vec![doc(1, Some("a.txt"), false, 10)],
        vec![Pane { id: 10, doc: 1, cursor_line: 1 }],
    );
    let out = on_prompt_event(&reg, &mut ed, b"   ", PromptEvent::Validate);
    assert!(out.error.is_none());
    assert!(out.status.is_none());
    assert_eq!(out.effects.len(), 0);
}

#[test]
fn get_option_shows_the_value() {
    let reg = default_registry().unwrap();
    let mut ed = editor_with(
        vec![doc(1, Some("a.txt"), false, 10)],
        vec![Pane { id: 10, doc: 1, cursor_line: 1 }],
    );
    let out = on_prompt_event(&reg, &mut ed, b"get-option text-width", PromptEvent::Validate);
    assert_eq!(out.status.unwrap(), bv("80"));
    let out = on_prompt_event(&reg, &mut ed, b"get-option gutters", PromptEvent::Validate);
    assert_eq!(out.status.unwrap(), bv("[diff]"));
}

#[test]
fn set_option_updates_the_value() {
    let reg = default_registry().unwrap();
    let mut ed = editor_with(
        vec![doc(1, Some("a.txt"), false, 10)],
        vec![Pane { id: 10, doc: 1, cursor_line: 1 }],
    );
    let out = on_prompt_event(&reg, &mut ed, b"set-option text-width 100", PromptEvent::Validate);
    assert_eq!(out.status.unwrap(), bv("'text-width' is now set to 100"));
    assert!(matches!(ed.config[2].value, OptionValue::Int(100)));
}

#[test]
fn set_option_of_unknown_key_errs() {
    let reg = default_registry().unwrap();
    let mut ed = editor_with(
        vec![doc(1, Some("a.txt"), false, 10)],
        vec![Pane { id: 10, doc: 1, cursor_line: 1 }],
    );
    let out = on_prompt_event(&reg, &mut ed, b"set-option bogus 1", PromptEvent::Validate);
    match out.error {
        Some(CommandError::Handler { message }) => {
            assert_eq!(message, bv("Unknown key `bogus`"));
        },
        _ => panic!("expected a handler error"),
    }
}

#[test]
fn set_option_rejects_a_non_numeric_number() {
    let reg = default_registry().unwrap();
    let mut ed = editor_with(
        vec![doc(1, Some("a.txt"), false, 10)],
        vec![Pane { id: 10, doc: 1, cursor_line: 1 }],
    );
    let out = on_prompt_event(&reg, &mut ed, b"set-option text-width wide", PromptEvent::Validate);
    match out.error {
        Some(CommandError::Handler { message }) => {
            assert_eq!(message, bv("Could not parse field `wide`"));
        },
        _ => panic!("expected a handler error"),
    }
    assert!(matches!(ed.config[2].value, OptionValue::Int(80)));
}

#[test]
fn toggle_bool_negates() {
    let reg = default_registry().unwrap();
    let mut ed = editor_with(
        vec![doc(1, Some("a.txt"), false, 10)],
        vec![Pane { id: 10, doc: 1, cursor_line: 1 }],
    );
    let out = on_prompt_event(&reg, &mut ed, b"toggle-option mouse", PromptEvent::Validate);
    assert_eq!(out.status.unwrap(), bv("'mouse' is now set to false"));
    assert!(matches!(ed.config[0].value, OptionValue::Bool(false)));
}

#[test]
fn toggle_string_cycles_through_candidates() {
    let reg = default_registry().unwrap();
    let mut ed = editor_with(
        vec![doc(1, Some("a.txt"), false, 10)],
        vec![Pane { id: 10, doc: 1, cursor_line: 1 }],
    );
    let out = on_prompt_event(
        &reg,
        &mut ed,
        b"toggle-option line-number absolute relative",
        PromptEvent::Validate,
    );
    assert_eq!(out.status.unwrap(), bv("'line-number' is now set to relative"));
    let out = on_prompt_event(
        &reg,
        &mut ed,
        b"toggle-option line-number absolute relative",
        PromptEvent::Validate,
    );
    assert_eq!(out.status.unwrap(), bv("'line-number' is now set to absolute"));
}

#[test]
fn toggle_list_swaps_between_two_candidates() {
    let reg = default_registry().unwrap();
    let mut ed = editor_with(
        vec![doc(1, Some("a.txt"), false, 10)],
        vec![Pane { id: 10, doc: 1, cursor_line: 1 }],
    );
    let out = on_prompt_event(
        &reg,
        &mut ed,
        b"toggle-option gutters [diff] [diagnostics,diff]",
        PromptEvent::Validate,
    );
    assert_eq!(out.status.unwrap(), bv("'gutters' is now set to [diagnostics,diff]"));
    let out = on_prompt_event(
        &reg,
        &mut ed,
        b"toggle-option gutters [diff] [diagnostics,diff]",
        PromptEvent::Validate,
    );
    assert_eq!(out.status.unwrap(), bv("'gutters' is now set to [diff]"));
}

#[test]
fn buffer_next_wraps_around() {
    let reg = default_registry().unwrap();
    let mut ed = editor_with(
        vec![doc(1, Some("a.txt"), false, 10), doc(2, Some("b.txt"), false, 10)],
        vec![Pane { id: 10, doc: 2, cursor_line: 1 }],
    );
    on_prompt_event(&reg, &mut ed, b"buffer-next", PromptEvent::Validate);
    assert_eq!(ed.views[0].doc, 1);
    on_prompt_event(&reg, &mut ed, b"buffer-previous", PromptEvent::Validate);
    assert_eq!(ed.views[0].doc, 2);
}

#[test]
fn new_file_opens_a_scratch_buffer() {
    let reg = default_registry().unwrap();
    let mut ed = editor_with(
        vec![doc(1, Some("a.txt"), false, 10)],
        vec![Pane { id: 10, doc: 1, cursor_line: 5 }],
    );
    let out = on_prompt_event(&reg, &mut ed, b"new", PromptEvent::Validate);
    assert!(out.error.is_none());
    assert_eq!(ed.documents.len(), 2);
    assert_eq!(ed.views[0].doc, 2);
    assert_eq!(ed.views[0].cursor_line, 1);
}

#[test]
fn goto_with_a_non_numeric_argument_is_a_value_error() {
    let reg = default_registry().unwrap();
    let mut ed = editor_with(
        vec![doc(1, Some("a.txt"), false, 10)],
        vec![Pane { id: 10, doc: 1, cursor_line: 2 }],
    );
    let out = on_prompt_event(&reg, &mut ed, b"goto abc", PromptEvent::Validate);
    match out.error {
        Some(CommandError::ValueParse { input }) => assert_eq!(input, bv("abc")),
        _ => panic!("expected a value-parse error"),
    }
    assert_eq!(ed.views[0].cursor_line, 2);
}

#[test]
fn cquit_with_a_flag_shaped_code_is_a_parse_error() {
    let reg = default_registry().unwrap();
    let mut ed = editor_with(
        vec![doc(1, Some("a.txt"), false, 10)],
        vec![Pane { id: 10, doc: 1, cursor_line: 1 }],
    );
    let out = on_prompt_event(&reg, &mut ed, b"cquit -2", PromptEvent::Validate);
    assert!(matches!(out.error, Some(CommandError::Parse(_))));
    assert_eq!(ed.exit_code, 0);
    assert_eq!(ed.views.len(), 1);
}

#[test]
fn quit_all_refuses_while_changes_are_unsaved() {
    let reg = default_registry().unwrap();
    let mut ed = editor_with(
        vec![doc(1, Some("a.txt"), true, 10), doc(2, Some("b.txt"), false, 10)],
        vec![
            Pane { id: 10, doc: 1, cursor_line: 1 },
            Pane { id: 11, doc: 2, cursor_line: 1 },
        ],
    );
    let out = on_prompt_event(&reg, &mut ed, b"quit-all", PromptEvent::Validate);
    assert!(out.error.is_some());
    assert_eq!(ed.views.len(), 2);
    let out = on_prompt_event(&reg, &mut ed, b"quit-all!", PromptEvent::Validate);
    assert!(out.error.is_none());
    assert_eq!(ed.views.len(), 0);
}

#[test]
fn write_all_reports_modified_scratch_buffers() {
    let reg = default_registry().unwrap();
    let mut ed = editor_with(
        vec![doc(1, None, true, 10), doc(2, Some("b.txt"), true, 10)],
        vec![Pane { id: 10, doc: 1, cursor_line: 1 }],
    );
    let out = on_prompt_event(&reg, &mut ed, b"write-all", PromptEvent::Validate);
    match out.error {
        Some(CommandError::Handler { message }) => {
            assert_eq!(
                String::from_utf8(message).unwrap(),
                "1 buffer(s) without a filename cannot be written"
            );
        },
        _ => panic!("expected a handler error"),
    }
    // The named buffer was still planned for saving.
    assert_eq!(out.effects.len(), 1);
}

#[test]
fn toggle_number_cycles_through_candidates() {
    let reg = default_registry().unwrap();
    let mut ed = editor_with(
        vec![doc(1, Some("a.txt"), false, 10)],
        vec![Pane { id: 10, doc: 1, cursor_line: 1 }],
    );
    let out = on_prompt_event(&reg, &mut ed, b"toggle-option text-width 80 100 120", PromptEvent::Validate);
    assert_eq!(out.status.unwrap(), bv("'text-width' is now set to 100"));
    let out = on_prompt_event(&reg, &mut ed, b"toggle-option text-width 80 100 120", PromptEvent::Validate);
    assert_eq!(out.status.unwrap(), bv("'text-width' is now set to 120"));
    let out = on_prompt_event(&reg, &mut ed, b"toggle-option text-width 80 100 120", PromptEvent::Validate);
    assert_eq!(out.status.unwrap(), bv("'text-width' is now set to 80"));
}

#[test]
fn set_option_accepts_bool_string_and_list() {
    let reg = default_registry().unwrap();
    let mut ed = editor_with(
        vec![doc(1, Some("a.txt"), false, 10)],
        vec![Pane { id: 10, doc: 1, cursor_line: 1 }],
    );
    on_prompt_event(&reg, &mut ed, b"set-option mouse false", PromptEvent::Validate);
    assert!(matches!(ed.config[0].value, OptionValue::Bool(false)));
    on_prompt_event(&reg, &mut ed, b"set-option line-number relative", PromptEvent::Validate);
    assert!(matches!(&ed.config[1].value, OptionValue::Str(s) if s == &bv("relative")));
    on_prompt_event(&reg, &mut ed, b"set-option gutters [diagnostics,diff]", PromptEvent::Validate);
    match &ed.config[3].value {
        OptionValue::List(items) => assert_eq!(items, &vec![bv("diagnostics"), bv("diff")]),
        _ => panic!("expected a list value"),
    }
}
