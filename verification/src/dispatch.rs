//! The prompt-event dispatcher: one keystroke or confirmation in, one
//! tokenize, resolve, parse, validate, dispatch pass out.
//!
//! On every event the line is split and the command token resolved. A line
//! that is a bare decimal number is the implicit goto-line command, with a
//! live preview. Parse errors are swallowed while the line is still being
//! edited (`Update`) and surfaced on confirmation (`Validate`); the arity
//! check runs only on `Validate`. A handler whose effect lives in the
//! editor model runs here; any other command is returned as a request for
//! the surrounding editor, carrying the parsed arguments and the phase.

use vstd::prelude::*;
use vstd::string::StringSliceAdditionalSpecFns;
use crate::args::{self, Args, ArgsView, ParseError, ParseErrorView};
use crate::bytes;
use crate::editor::{self, Editor, Pane};
use crate::event::PromptEvent;
use crate::options;
use crate::registry::{
    arity_ok, cmd_has_key, spec_resolve, ArityError, CloseTarget, CommandRegistry, Handler,
    TypableCommand,
};
use crate::shellwords::{spec_command, spec_ends_ws, spec_rest, spec_words, Shellwords};

verus! {

/// Why a submission failed, by stage.
pub enum CommandError {
    /// The command token is no registered name or alias.
    UnknownCommand { name: Vec<u8> },
    /// A flag was malformed.
    Parse(ParseError),
    /// The positional count is outside the declared arity.
    Arity(ArityError),
    /// A value failed to convert to its expected type.
    ValueParse { input: Vec<u8> },
    /// The handler itself reported a failure.
    Handler { message: Vec<u8> },
}

/// The status text of each error.
pub open spec fn spec_error_message(e: &CommandError) -> Seq<u8> {
    match e {
        CommandError::UnknownCommand { name } => "no such command: '".spec_bytes() + name@
            + "'".spec_bytes(),
        CommandError::Parse(p) => match p@ {
            ParseErrorView::UnknownFlag(t) => "unknown flag `".spec_bytes() + t + "`".spec_bytes(),
            ParseErrorView::FlagValueError(l) => "flag `".spec_bytes() + l
                + "` expects a value".spec_bytes(),
        },
        CommandError::Arity(a) => crate::registry::spec_arity_message(a),
        CommandError::ValueParse { input } => "could not parse `".spec_bytes() + input@
            + "` as a number".spec_bytes(),
        CommandError::Handler { message } => message@,
    }
}

impl CommandError {
    /// Renders the single-line status text of this error.
    pub fn message(&self) -> (r: Vec<u8>)
        ensures
            r@ == spec_error_message(self),
    {
        match self {
            CommandError::UnknownCommand { name } => {
                let mut r: Vec<u8> = Vec::new();
                bytes::extend_str(&mut r, "no such command: '");
                bytes::extend(&mut r, name.as_slice());
                bytes::extend_str(&mut r, "'");
                assert(r@ =~= spec_error_message(self));
                r
            },
            CommandError::Parse(p) => {
                let mut r: Vec<u8> = Vec::new();
                match p {
                    ParseError::UnknownFlag(t) => {
                        bytes::extend_str(&mut r, "unknown flag `");
                        bytes::extend(&mut r, t.as_slice());
                        bytes::extend_str(&mut r, "`");
                    },
                    ParseError::FlagValueError(l) => {
                        bytes::extend_str(&mut r, "flag `");
                        bytes::extend(&mut r, l.as_slice());
                        bytes::extend_str(&mut r, "` expects a value");
                    },
                }
                assert(r@ =~= spec_error_message(self));
                r
            },
            CommandError::Arity(a) => a.message(),
            CommandError::ValueParse { input } => {
                let mut r: Vec<u8> = Vec::new();
                bytes::extend_str(&mut r, "could not parse `");
                bytes::extend(&mut r, input.as_slice());
                bytes::extend_str(&mut r, "` as a number");
                assert(r@ =~= spec_error_message(self));
                r
            },
            CommandError::Handler { message } => bytes::to_vec(message.as_slice()),
        }
    }
}

/// Work the interpreter asks the surrounding editor to perform.
pub enum Effect {
    /// Write the buffer with this id to its file.
    Save { doc: u64 },
    /// Run the named command, whose effect lives outside the editor
    /// model, with the parsed arguments and the phase.
    Invoke { name: Vec<u8>, args: Args, event: PromptEvent },
}

/// What one prompt event produced: requested work, a status line, an
/// error. At most one of status and error is set.
pub struct Outcome {
    pub effects: Vec<Effect>,
    pub status: Option<Vec<u8>>,
    pub error: Option<CommandError>,
}

impl Outcome {
    /// No work, no message.
    pub fn quiet() -> (r: Outcome)
        ensures
            r.effects@.len() == 0 && r.status is None && r.error is None,
    {
        Outcome { effects: Vec::new(), status: None, error: None }
    }

    /// An error and nothing else.
    pub fn of_error(e: CommandError) -> (r: Outcome)
        ensures
            r.effects@.len() == 0 && r.status is None && (r.error matches Some(x) && x == e),
    {
        Outcome { effects: Vec::new(), status: None, error: Some(e) }
    }

    /// A status line and nothing else.
    pub fn of_status(s: Vec<u8>) -> (r: Outcome)
        ensures
            r.effects@.len() == 0 && r.error is None && (r.status matches Some(x) && x == s),
    {
        Outcome { effects: Vec::new(), status: Some(s), error: None }
    }
}

/// An outcome with no effects, no status and no error.
pub open spec fn quiet_outcome(r: &Outcome) -> bool {
    r.effects@.len() == 0 && r.status is None && r.error is None
}

/// The goto-line protocol: `Update` previews the move (or rolls it back
/// when the digits were deleted), `Abort` restores the saved cursor
/// exactly, `Validate` commits the move and ends the preview.
pub open spec fn goto_post(
    argsv: Seq<Seq<u8>>,
    event: PromptEvent,
    pre: Editor,
    post: Editor,
    r: &Result<(), CommandError>,
) -> bool {
    match event {
        PromptEvent::Abort => r is Ok && goto_abort_post(pre, post),
        PromptEvent::Update => {
            if argsv.len() == 0 {
                r is Ok && goto_abort_post(pre, post)
            } else {
                goto_move_post(argsv[0], pre, post, r, false)
            }
        },
        PromptEvent::Validate => {
            if argsv.len() == 0 {
                (r matches Err(e) && e matches CommandError::Handler { message } && message@
                    == "Line number required".spec_bytes()) && post == pre
            } else {
                goto_move_post(argsv[0], pre, post, r, true)
            }
        },
    }
}

/// Abort: the cursor saved before the preview is restored exactly and the
/// preview forgotten; without a preview nothing changes.
pub open spec fn goto_abort_post(pre: Editor, post: Editor) -> bool {
    &&& post.last_selection is None
    &&& post.views@ == (match pre.last_selection {
        Some(l) => pre.views@.update(
            pre.focused as int,
            (Pane { cursor_line: l, ..pre.views@[pre.focused as int] }),
        ),
        None => pre.views@,
    })
    &&& post.documents == pre.documents
    &&& post.focused == pre.focused
    &&& post.config == pre.config
    &&& post.next_doc_id == pre.next_doc_id
    &&& post.exit_code == pre.exit_code
}

/// A goto move on argument `a`: on digits the cursor goes to that line
/// (clamped to the document) with the pre-preview cursor remembered, or
/// forgotten when the move commits; a non-numeric argument is a value
/// error and changes nothing.
pub open spec fn goto_move_post(
    a: Seq<u8>,
    pre: Editor,
    post: Editor,
    r: &Result<(), CommandError>,
    commit: bool,
) -> bool {
    if bytes::all_digits(a) && bytes::spec_digits_value(a) <= usize::MAX {
        &&& r is Ok
        &&& post.views@ == pre.views@.update(
            pre.focused as int,
            (Pane {
                cursor_line: editor::clamped_line(&pre, bytes::spec_digits_value(a)) as usize,
                ..pre.views@[pre.focused as int]
            }),
        )
        &&& post.last_selection == (if commit {
            None::<usize>
        } else if pre.last_selection is Some {
            pre.last_selection
        } else {
            Some(pre.views@[pre.focused as int].cursor_line)
        })
        &&& post.documents == pre.documents
        &&& post.focused == pre.focused
        &&& post.config == pre.config
        &&& post.next_doc_id == pre.next_doc_id
        &&& post.exit_code == pre.exit_code
    } else {
        (r matches Err(e) && e matches CommandError::ValueParse { input } && input@ == a) && post
            == pre
    }
}

/// Moves the cursor to a line with live preview: `Update` previews,
/// `Validate` commits, `Abort` restores the pre-preview cursor exactly.
/// Works with no prior `Update` when invoked directly.
pub fn goto_line_number(editor: &mut Editor, cmd_args: &Args, event: PromptEvent) -> (r: Result<
    (),
    CommandError,
>)
    requires
        editor::wf(old(editor)),
        old(editor).last_selection matches Some(l) ==> l >= 1,
    ensures
        editor::wf(final(editor)),
        final(editor).last_selection matches Some(l) ==> l >= 1,
        goto_post(cmd_args@.positionals, event, *old(editor), *final(editor), &r),
{
    match event {
        PromptEvent::Abort => {
            editor::abort_goto_line_number_preview(editor);
            Ok(())
        },
        PromptEvent::Update => {
            if cmd_args.is_empty() {
                editor::abort_goto_line_number_preview(editor);
                Ok(())
            } else {
                goto_move(editor, cmd_args, false)
            }
        },
        PromptEvent::Validate => {
            if cmd_args.is_empty() {
                let mut m: Vec<u8> = Vec::new();
                bytes::extend_str(&mut m, "Line number required");
                assert(m@ =~= "Line number required".spec_bytes());
                return Err(CommandError::Handler { message: m });
            }
            let r = goto_move(editor, cmd_args, true);
            r
        },
    }
}

/// One goto move; on commit the preview state is cleared.
fn goto_move(editor: &mut Editor, cmd_args: &Args, commit: bool) -> (r: Result<(), CommandError>)
    requires
        editor::wf(old(editor)),
        old(editor).last_selection matches Some(l) ==> l >= 1,
        cmd_args@.positionals.len() > 0,
    ensures
        editor::wf(final(editor)),
        final(editor).last_selection matches Some(l) ==> l >= 1,
        goto_move_post(cmd_args@.positionals[0], *old(editor), *final(editor), &r, commit),
{
    let a: &Vec<u8> = cmd_args.get(0);
    if !bytes::is_all_digits(a.as_slice()) {
        return Err(CommandError::ValueParse { input: bytes::to_vec(a.as_slice()) });
    }
    let line: usize = match bytes::parse_usize(a.as_slice()) {
        Some(n) => n,
        None => {
            return Err(CommandError::ValueParse { input: bytes::to_vec(a.as_slice()) });
        },
    };
    editor::update_goto_line_number_preview(editor, line);
    if commit {
        editor.last_selection = None;
    }
    Ok(())
}

/// Names joined by commas, each in single quotes.
pub open spec fn spec_missing_list(names: Seq<Seq<u8>>) -> Seq<u8>
    decreases names.len(),
{
    if names.len() == 0 {
        Seq::empty()
    } else if names.len() == 1 {
        seq![39u8] + names[0] + seq![39u8]
    } else {
        seq![39u8] + names[0] + seq![39u8] + ", ".spec_bytes() + spec_missing_list(
            names.drop_first(),
        )
    }
}

/// The status text when arguments name no open buffer.
pub open spec fn spec_missing_message(names: Seq<Seq<u8>>) -> Seq<u8> {
    "cannot close non-existent buffers: ".spec_bytes() + spec_missing_list(names)
}

proof fn lemma_missing_list_snoc(names: Seq<Seq<u8>>, x: Seq<u8>)
    ensures
        names.len() == 0 ==> spec_missing_list(names.push(x)) == seq![39u8] + x + seq![39u8],
        names.len() > 0 ==> spec_missing_list(names.push(x)) == spec_missing_list(names)
            + ", ".spec_bytes() + (seq![39u8] + x + seq![39u8]),
    decreases names.len(),
{
    if names.len() == 0 {
        assert(names.push(x)[0] == x);
        assert(names.push(x).len() == 1);
    } else {
        assert(names.push(x)[0] == names[0]);
        assert(names.push(x).drop_first() =~= names.drop_first().push(x));
        lemma_missing_list_snoc(names.drop_first(), x);
        if names.len() == 1 {
            assert(spec_missing_list(names) == seq![39u8] + names[0] + seq![39u8]);
        } else {
            assert(seq![39u8] + names[0] + seq![39u8] + ", ".spec_bytes() + (spec_missing_list(
                names.drop_first(),
            ) + ", ".spec_bytes() + (seq![39u8] + x + seq![39u8])) =~= (seq![39u8] + names[0]
                + seq![39u8] + ", ".spec_bytes() + spec_missing_list(names.drop_first()))
                + ", ".spec_bytes() + (seq![39u8] + x + seq![39u8]));
        }
    }
}

fn missing_message(names: &Vec<Vec<u8>>) -> (r: Vec<u8>)
    ensures
        r@ == spec_missing_message(crate::shellwords::word_views(names@)),
{
    let ghost nv = crate::shellwords::word_views(names@);
    let mut r: Vec<u8> = Vec::new();
    bytes::extend_str(&mut r, "cannot close non-existent buffers: ");
    let mut i: usize = 0;
    assert(nv.take(0int) =~= Seq::<Seq<u8>>::empty());
    assert(r@ =~= "cannot close non-existent buffers: ".spec_bytes() + spec_missing_list(
        nv.take(0int),
    ));
    while i < names.len()
        invariant
            0 <= i <= names@.len(),
            nv == crate::shellwords::word_views(names@),
            nv.len() == names@.len(),
            r@ == "cannot close non-existent buffers: ".spec_bytes() + spec_missing_list(
                nv.take(i as int),
            ),
        decreases names@.len() - i,
    {
        proof {
            assert(nv.take(i + 1) =~= nv.take(i as int).push(nv[i as int]));
            lemma_missing_list_snoc(nv.take(i as int), nv[i as int]);
            assert(nv[i as int] == names@[i as int]@);
        }
        if i > 0 {
            bytes::extend_str(&mut r, ", ");
        }
        r.push(39);
        bytes::extend(&mut r, names[i].as_slice());
        r.push(39);
        assert(r@ =~= "cannot close non-existent buffers: ".spec_bytes() + spec_missing_list(
            nv.take(i + 1),
        ));
        i += 1;
    }
    assert(nv.take(names@.len() as int) =~= nv);
    r
}

/// A well-formed exit-code argument: a decimal integer an `i32` holds.
pub open spec fn valid_exit_code(a: Seq<u8>) -> bool {
    bytes::is_int_literal(a) && -0x80000000 <= bytes::spec_int_value(a) <= 0x7fffffff
}

/// The exit code of a quit: the argument's value, or one when no
/// argument is given.
pub open spec fn spec_exit_code(argsv: Seq<Seq<u8>>) -> int {
    if argsv.len() > 0 {
        bytes::spec_int_value(argsv[0])
    } else {
        1
    }
}

/// The ids a close operation targets.
pub open spec fn close_target_ids(pre: Editor, target: CloseTarget, argsv: Seq<Seq<u8>>) -> Seq<
    u64,
> {
    match target {
        CloseTarget::Named => if argsv.len() == 0 {
            seq![editor::current_doc(&pre)]
        } else {
            editor::spec_gather_ids(pre.documents@, argsv)
        },
        CloseTarget::Others => editor::doc_ids(
            pre.documents@.filter(|d: editor::Document| d.id != editor::current_doc(&pre)),
        ),
        CloseTarget::All => editor::doc_ids(pre.documents@),
    }
}

/// The state after a close: documents kept (or one fresh scratch buffer),
/// views re-homed but keeping identity and cursor, and the blocked-buffers
/// error when unsaved changes stopped part of the close; arguments naming
/// no buffer are reported when nothing else went wrong.
pub open spec fn close_post(
    pre: Editor,
    post: Editor,
    ids: Seq<u64>,
    force: bool,
    missing: Seq<Seq<u8>>,
    r: &Outcome,
) -> bool {
    let kept = editor::spec_kept(pre.documents@, ids, force);
    let blocked = editor::spec_blocked(pre.documents@, ids, force);
    &&& (if kept.len() > 0 {
        post.documents@ == kept && post.next_doc_id == pre.next_doc_id
    } else {
        post.documents@ == seq![
            (editor::Document { id: pre.next_doc_id, path: None, modified: false, lines: 1 }),
        ] && post.next_doc_id as int == pre.next_doc_id as int + 1
    })
    &&& post.views@.len() == pre.views@.len()
    &&& post.focused == pre.focused
    &&& post.exit_code == pre.exit_code
    &&& forall|k: int|
        0 <= k < post.views@.len() ==> {
            let v = #[trigger] post.views@[k];
            let w = pre.views@[k];
            v.id == w.id && v.cursor_line == w.cursor_line
        }
    &&& ({
        let fd = editor::final_docs_spec(pre, ids, force);
        let focused = pre.focused as int;
        if blocked.len() > 0 && !editor::doc_blocked(
            fd,
            ids,
            force,
            editor::rehomed_doc(pre, ids, force, focused),
        ) {
            &&& post.views@[focused].doc == blocked[0].id
            &&& forall|k: int|
                0 <= k < post.views@.len() && k != focused ==> (#[trigger] post.views@[k]).doc
                    == editor::rehomed_doc(pre, ids, force, k)
        } else {
            forall|k: int|
                0 <= k < post.views@.len() ==> (#[trigger] post.views@[k]).doc
                    == editor::rehomed_doc(pre, ids, force, k)
        }
    })
    &&& r.effects@.len() == 0
    &&& r.status is None
    &&& (if blocked.len() > 0 {
        r.error matches Some(e) && e matches CommandError::Handler { message } && message@
            == editor::spec_remaining_message(
            blocked.map_values(|d: editor::Document| editor::spec_display_name(d)),
        )
    } else if missing.len() > 0 {
        r.error matches Some(e) && e matches CommandError::Handler { message } && message@
            == spec_missing_message(missing)
    } else {
        r.error is None
    })
}

/// What dispatching one parsed command does, by handler, for the state,
/// the requested effects and the reported status or error.
pub open spec fn handler_post(
    cmd: TypableCommand,
    argsv: ArgsView,
    event: PromptEvent,
    pre: Editor,
    post: Editor,
    raw_rest: Seq<u8>,
    r: &Outcome,
) -> bool {
    match cmd.fun {
        Handler::External => post == pre && r.status is None && r.error is None
            && r.effects@.len() == 1 && (r.effects@[0] matches Effect::Invoke {
            name,
            args,
            event: ev,
        } && name@ == cmd.name@ && args@ == argsv && ev == event),
        Handler::GotoLineNumber => r.status is None && r.effects@.len() == 0 && goto_post(
            argsv.positionals,
            event,
            pre,
            post,
            &(match r.error {
                Some(e) => Err::<(), CommandError>(e),
                None => Ok(()),
            }),
        ),
        _ => {
            if event != PromptEvent::Validate {
                post == pre && quiet_outcome(r)
            } else {
                match cmd.fun {
                    Handler::Quit { force } => quit_like_post(pre, post, force, false, r),
                    Handler::QuitAll { force } => quit_like_post(pre, post, force, true, r),
                    Handler::CQuit { force } => if argsv.positionals.len() > 0
                        && !valid_exit_code(argsv.positionals[0]) {
                        post == pre && r.effects@.len() == 0 && r.status is None && (
                        r.error matches Some(e) && e matches CommandError::ValueParse { input }
                            && input@ == argsv.positionals[0])
                    } else {
                        post.exit_code == spec_exit_code(argsv.positionals) && quit_like_post(
                            (Editor { exit_code: post.exit_code, ..pre }),
                            post,
                            force,
                            true,
                            r,
                        )
                    },
                    Handler::BufferClose { force, target } => close_post(
                        pre,
                        post,
                        close_target_ids(pre, target, argsv.positionals),
                        force,
                        (match target {
                            CloseTarget::Named => if argsv.positionals.len() == 0 {
                                Seq::empty()
                            } else {
                                editor::spec_gather_missing(pre.documents@, argsv.positionals)
                            },
                            _ => Seq::empty(),
                        }),
                        r,
                    ),
                    Handler::BufferNext => buffer_cycle_post(pre, post, true, r),
                    Handler::BufferPrevious => buffer_cycle_post(pre, post, false, r),
                    Handler::WriteAll { force, quit } => write_all_post(pre, post, force, quit, r),
                    Handler::NewFile => quiet_outcome(r) && post.documents@ == pre.documents@.push(
                        (editor::Document {
                            id: pre.next_doc_id,
                            path: None,
                            modified: false,
                            lines: 1,
                        }),
                    ) && post.views@ == pre.views@.update(
                        pre.focused as int,
                        (Pane {
                            doc: pre.next_doc_id,
                            cursor_line: 1,
                            ..pre.views@[pre.focused as int]
                        }),
                    ) && post.next_doc_id as int == pre.next_doc_id as int + 1 && post.focused
                        == pre.focused,
                    Handler::Echo => post == pre && r.effects@.len() == 0 && (
                    if argsv.positionals.len() == 0 {
                        r.status is None && r.error is None
                    } else {
                        r.error is None && (r.status matches Some(st) && st@
                            == argsv.positionals[0])
                    }),
                    Handler::GetOption => post == pre && r.effects@.len() == 0 && (
                    if argsv.positionals.len() == 0 {
                        r.status is None && r.error is None
                    } else {
                    match
                        crate::options::spec_find_key(
                        pre.config@,
                        bytes::spec_lower(argsv.positionals[0]),
                    ) {
                        Some(k) => r.error is None && (r.status matches Some(st) && st@
                            == crate::options::spec_render(pre.config@[k].value@)),
                        None => r.status is None && (r.error matches Some(e) && e
                            matches CommandError::Handler { message } && message@
                            == crate::options::spec_unknown_key_message(
                            bytes::spec_lower(argsv.positionals[0]),
                        )),
                    }}),
                    Handler::SetOption => set_option_post(pre, post, raw_rest, r),
                    Handler::ToggleOption => toggle_option_post(pre, post, argsv.positionals, r),
                    _ => true,
                }
            }
        },
    }
}

/// Closing the focused view (`quit`) or all views (`quit-all`): refused
/// with the unsaved-buffers report when changes would be lost, unless
/// forced.
pub open spec fn quit_like_post(pre: Editor, post: Editor, force: bool, all: bool, r: &Outcome) -> bool {
    let allowed = force || (!all && pre.views@.len() > 1) || editor::spec_modified(
        pre.documents@,
    ).len() == 0;
    &&& r.effects@.len() == 0
    &&& r.status is None
    &&& (if allowed {
        &&& r.error is None
        &&& (if all {
            post.views@.len() == 0
        } else {
            post.views@ == pre.views@.remove(pre.focused as int)
        })
        &&& post.documents == pre.documents
        &&& post.exit_code == pre.exit_code
    } else {
        &&& r.error matches Some(e) && e matches CommandError::Handler { message } && message@
            == editor::spec_remaining_message(editor::modified_names(pre.documents@))
        &&& post.views@.len() == pre.views@.len()
        &&& post.documents == pre.documents
        &&& post.exit_code == pre.exit_code
    })
}

/// Moving the focused view to the next or previous buffer, wrapping.
pub open spec fn buffer_cycle_post(pre: Editor, post: Editor, forward: bool, r: &Outcome) -> bool {
    let docs = pre.documents@;
    let i = editor::spec_find_doc(docs, editor::current_doc(&pre))->Some_0;
    let n = docs.len() as int;
    let j = if forward {
        if i + 1 == n {
            0int
        } else {
            i + 1
        }
    } else {
        if i == 0 {
            n - 1
        } else {
            i - 1
        }
    };
    &&& quiet_outcome(r)
    &&& post.views@ == pre.views@.update(
        pre.focused as int,
        (Pane { doc: docs[j].id, ..pre.views@[pre.focused as int] }),
    )
    &&& post.documents == pre.documents
    &&& post.focused == pre.focused
    &&& post.exit_code == pre.exit_code
}

/// Saving every modified buffer, optionally closing all views afterwards:
/// each modified buffer with a file is planned for writing and marked
/// clean; scratch buffers with changes block an unforced save, and
/// unsaved changes left after the save block an unforced quit.
pub open spec fn write_all_post(pre: Editor, post: Editor, force: bool, quit: bool, r: &Outcome) -> bool {
    let saves = editor::doc_ids(editor::spec_saveable(pre.documents@));
    let scratch_blocked = editor::spec_unsaveable(pre.documents@).len();
    let write_err = !force && scratch_blocked > 0;
    &&& r.status is None
    &&& r.effects@.len() == saves.len()
    &&& forall|i: int|
        0 <= i < saves.len() ==> (#[trigger] r.effects@[i] matches Effect::Save { doc } && doc
            == saves[i])
    &&& post.documents@.len() == pre.documents@.len()
    &&& forall|k: int|
        0 <= k < pre.documents@.len() ==> {
            let d = #[trigger] pre.documents@[k];
            let f = post.documents@[k];
            f.id == d.id && f.lines == d.lines && editor::path_view(f) == editor::path_view(d)
                && f.modified == (d.modified && d.path is None)
        }
    &&& post.next_doc_id == pre.next_doc_id
    &&& post.exit_code == pre.exit_code
    &&& (if write_err {
        (r.error matches Some(e) && e matches CommandError::Handler { message } && message@
            == editor::spec_scratch_error_message(scratch_blocked as nat)) && post.views@
            == pre.views@ && post.focused == pre.focused
    } else if quit {
        let still_modified = editor::spec_modified(post.documents@);
        if force || still_modified.len() == 0 {
            r.error is None && post.views@.len() == 0
        } else {
            (r.error matches Some(e) && e matches CommandError::Handler { message } && message@
                == editor::spec_remaining_message(editor::modified_names(post.documents@)))
                && post.views@.len() == pre.views@.len()
        }
    } else {
        r.error is None && post.views@ == pre.views@ && post.focused == pre.focused
    })
}

/// Setting an option: the remainder after the command splits into the key
/// token and the verbatim field, which must both be present; the field is
/// parsed according to the option's kind.
pub open spec fn set_option_post(pre: Editor, post: Editor, raw_rest: Seq<u8>, r: &Outcome) -> bool {
    let key = spec_command(raw_rest);
    let field = spec_rest(raw_rest);
    &&& r.effects@.len() == 0
    &&& (if key.len() == 0 {
        post == pre && r.status is None && (r.error matches Some(e) && e
            matches CommandError::Handler { message } && message@
            == "Bad arguments. Usage: `:set key field`, didn't provide `key`".spec_bytes())
    } else if field.len() == 0 {
        post == pre && r.status is None && (r.error matches Some(e) && e
            matches CommandError::Handler { message } && message@
            == "Bad arguments. Usage: `:set key field`, didn't provide `field`".spec_bytes())
    } else {
        let lk = bytes::spec_lower(key);
        &&& post.documents == pre.documents
        &&& post.views == pre.views
        &&& post.focused == pre.focused
        &&& post.next_doc_id == pre.next_doc_id
        &&& post.exit_code == pre.exit_code
        &&& (match crate::options::spec_find_key(pre.config@, lk) {
            None => r.status is None && pre.config == post.config && (r.error matches Some(e) && e
                matches CommandError::Handler { message } && message@
                == crate::options::spec_unknown_key_message(lk)),
            Some(k) => match crate::options::spec_set_value(pre.config@[k].value@, field) {
                Some(v) => {
                    &&& r.error is None
                    &&& crate::options::cfg_views(post.config@) == crate::options::cfg_views(
                        pre.config@,
                    ).update(
                        k,
                        (crate::options::ConfigEntryView { key: pre.config@[k].key@, value: v }),
                    )
                    &&& (r.status matches Some(st) && st@ == "'".spec_bytes() + key
                        + "' is now set to ".spec_bytes() + field)
                },
                None => r.status is None && pre.config == post.config && (r.error matches Some(e)
                    && e matches CommandError::Handler { message } && message@
                    == crate::options::spec_parse_field_message(field)),
            },
        })
    })
}

/// Toggling an option: the key is the first word; the kind of the current
/// value picks the toggle rule; the status reports the new value.
pub open spec fn toggle_option_post(pre: Editor, post: Editor, pos: Seq<Seq<u8>>, r: &Outcome) -> bool {
    if pos.len() == 0 {
        post == pre && r.effects@.len() == 0 && r.status is None && (r.error matches Some(e) && e
            matches CommandError::Handler { message } && message@
            == "Bad arguments. Usage: `:toggle key [values]?`".spec_bytes())
    } else {
        toggle_option_keyed_post(pre, post, pos, r)
    }
}

/// Toggling with the key present.
pub open spec fn toggle_option_keyed_post(
    pre: Editor,
    post: Editor,
    pos: Seq<Seq<u8>>,
    r: &Outcome,
) -> bool {
    let lk = bytes::spec_lower(pos[0]);
    &&& r.effects@.len() == 0
    &&& post.documents == pre.documents
    &&& post.views == pre.views
    &&& post.focused == pre.focused
    &&& post.next_doc_id == pre.next_doc_id
    &&& post.exit_code == pre.exit_code
    &&& (match crate::options::spec_find_key(pre.config@, lk) {
        None => r.status is None && pre.config == post.config && (r.error matches Some(e) && e
            matches CommandError::Handler { message } && message@
            == crate::options::spec_unknown_key_message(lk)),
        Some(k) => match crate::options::spec_toggle(pre.config@[k].value@, pos) {
            Ok(v) => {
                &&& r.error is None
                &&& crate::options::cfg_views(post.config@) == crate::options::cfg_views(
                    pre.config@,
                ).update(
                    k,
                    (crate::options::ConfigEntryView { key: pre.config@[k].key@, value: v }),
                )
                &&& (r.status matches Some(st) && st@ == "'".spec_bytes() + lk
                    + "' is now set to ".spec_bytes() + crate::options::spec_render(v))
            },
            Err(m) => r.status is None && pre.config == post.config && (r.error matches Some(e)
                && e matches CommandError::Handler { message } && message@ == m),
        },
    })
}

/// A failed arity check on `c` with `count` positionals, matching the
/// declared (min, max) case.
pub open spec fn arity_case(c: TypableCommand, count: int, ae: &ArityError) -> bool {
    match ae {
        ArityError::TakesNoArguments { name } => name@ == c.name@ && c.signature.positionals == (
            0usize,
            Some(0usize),
        ) && count != 0,
        ArityError::NeedsExactly { name, min, got } => name@ == c.name@ && *got == count
            && c.signature.positionals == (*min, Some(*min)) && *min > 0 && count != *min,
        ArityError::NeedsBetween { name, min, max, got } => name@ == c.name@ && *got == count
            && c.signature.positionals == (*min, Some(*max)) && *min < *max && !(*min <= count
            <= *max),
        ArityError::NeedsAtLeast { name, min, got } => name@ == c.name@ && *got == count
            && c.signature.positionals == (*min, None::<usize>) && count < *min,
    }
}

/// Whether `count` positionals satisfy the arity `(min, max)`.
pub open spec fn arity_ok_n(min: usize, max: Option<usize>, count: int) -> bool {
    match max {
        Some(m) => min <= count <= m,
        None => count >= min,
    }
}

/// Runs one resolved command: an operation on the editor model is
/// interpreted here; any other command becomes a request carrying the
/// parsed arguments and the phase. Apart from the goto-line preview,
/// model operations act only on `Validate`.
#[verifier::rlimit(30)]
pub fn dispatch_handler(
    editor: &mut Editor,
    cmd: &TypableCommand,
    cmd_args: Args,
    raw_rest: &Vec<u8>,
    event: PromptEvent,
) -> (r: Outcome)
    requires
        editor::wf(old(editor)),
        old(editor).next_doc_id < u64::MAX,
        old(editor).last_selection matches Some(l) ==> l >= 1,
    ensures
        editor::wf(final(editor)) || final(editor).views@.len() == 0,
        final(editor).last_selection matches Some(l) ==> l >= 1,
        handler_post(*cmd, cmd_args@, event, *old(editor), *final(editor), raw_rest@, &r),
{
    match cmd.fun {
        Handler::External => {
            let name = bytes::to_vec(cmd.name.as_slice());
            let mut effects: Vec<Effect> = Vec::new();
            effects.push(Effect::Invoke { name, args: cmd_args, event });
            Outcome { effects, status: None, error: None }
        },
        Handler::GotoLineNumber => {
            match goto_line_number(editor, &cmd_args, event) {
                Ok(()) => Outcome::quiet(),
                Err(e) => Outcome::of_error(e),
            }
        },
        _ => {
            if event != PromptEvent::Validate {
                return Outcome::quiet();
            }
            match cmd.fun {
                Handler::Quit { force } => {
                    match editor::quit(editor, force) {
                        Ok(()) => Outcome::quiet(),
                        Err(m) => Outcome::of_error(CommandError::Handler { message: m }),
                    }
                },
                Handler::QuitAll { force } => {
                    match editor::quit_all_impl(editor, force) {
                        Ok(()) => Outcome::quiet(),
                        Err(m) => Outcome::of_error(CommandError::Handler { message: m }),
                    }
                },
                Handler::CQuit { force } => {
                    let code: i32 = match cmd_args.first() {
                        Some(a) => {
                            match bytes::parse_i64(a.as_slice()) {
                                Some(v) => {
                                    if -2147483648i64 <= v && v <= 2147483647i64 {
                                        v as i32
                                    } else {
                                        return Outcome::of_error(
                                            CommandError::ValueParse {
                                                input: bytes::to_vec(a.as_slice()),
                                            },
                                        );
                                    }
                                },
                                None => {
                                    return Outcome::of_error(
                                        CommandError::ValueParse {
                                            input: bytes::to_vec(a.as_slice()),
                                        },
                                    );
                                },
                            }
                        },
                        None => 1,
                    };
                    assert(code as int == spec_exit_code(cmd_args@.positionals));
                    match editor::cquit_impl(editor, force, code) {
                        Ok(()) => Outcome::quiet(),
                        Err(m) => Outcome::of_error(CommandError::Handler { message: m }),
                    }
                },
                Handler::BufferClose { force, target } => {
                    let (ids, missing): (Vec<u64>, Vec<Vec<u8>>) = match target {
                        CloseTarget::Named => editor::buffer_gather_paths_impl(editor, &cmd_args),
                        CloseTarget::Others => (
                            editor::buffer_gather_others_impl(editor),
                            Vec::new(),
                        ),
                        CloseTarget::All => (editor::buffer_gather_all_impl(editor), Vec::new()),
                    };
                    match editor::buffer_close_by_ids_impl(editor, &ids, force) {
                        Err(m) => Outcome::of_error(CommandError::Handler { message: m }),
                        Ok(()) => {
                            if missing.len() > 0 {
                                Outcome::of_error(
                                    CommandError::Handler { message: missing_message(&missing) },
                                )
                            } else {
                                Outcome::quiet()
                            }
                        },
                    }
                },
                Handler::BufferNext => {
                    editor::goto_buffer(editor, true);
                    Outcome::quiet()
                },
                Handler::BufferPrevious => {
                    editor::goto_buffer(editor, false);
                    Outcome::quiet()
                },
                Handler::WriteAll { force, quit } => {
                    let (saves, werr) = editor::write_all_impl(editor, force, true);
                    let ghost save_ids = saves@;
                    let mut effects: Vec<Effect> = Vec::new();
                    let mut i: usize = 0;
                    while i < saves.len()
                        invariant
                            0 <= i <= saves@.len(),
                            saves@ == save_ids,
                            effects@.len() == i,
                            forall|j: int|
                                0 <= j < i ==> (#[trigger] effects@[j] matches Effect::Save { doc }
                                    && doc == save_ids[j]),
                        decreases saves@.len() - i,
                    {
                        effects.push(Effect::Save { doc: saves[i] });
                        i += 1;
                    }
                    let ghost pre0 = *old(editor);
                    let out: Outcome = match werr {
                        Some(m) => Outcome {
                            effects,
                            status: None,
                            error: Some(CommandError::Handler { message: m }),
                        },
                        None => {
                            if quit {
                                match editor::quit_all_impl(editor, force) {
                                    Ok(()) => Outcome { effects, status: None, error: None },
                                    Err(m) => Outcome {
                                        effects,
                                        status: None,
                                        error: Some(CommandError::Handler { message: m }),
                                    },
                                }
                            } else {
                                Outcome { effects, status: None, error: None }
                            }
                        },
                    };
                    proof {
                        let saves_spec = editor::doc_ids(editor::spec_saveable(pre0.documents@));
                        assert(out.status is None);
                        assert(out.effects@.len() == saves_spec.len());
                        assert(forall|i: int|
                            0 <= i < saves_spec.len() ==> (#[trigger] out.effects@[i]
                                matches Effect::Save { doc } && doc == saves_spec[i]));
                        assert(editor.documents@.len() == pre0.documents@.len());
                        assert(editor.next_doc_id == pre0.next_doc_id);
                        assert(editor.exit_code == pre0.exit_code);
                        assert(write_all_post(pre0, *editor, force, quit, &out));
                    }
                    out
                },
                Handler::NewFile => {
                    editor::new_file(editor);
                    Outcome::quiet()
                },
                Handler::Echo => {
                    if cmd_args.is_empty() {
                        Outcome::quiet()
                    } else {
                        Outcome::of_status(bytes::to_vec(cmd_args.get(0).as_slice()))
                    }
                },
                Handler::GetOption => {
                    if cmd_args.is_empty() {
                        Outcome::quiet()
                    } else {
                        match options::get_option(editor, cmd_args.get(0).as_slice()) {
                            Ok(s) => Outcome::of_status(s),
                            Err(m) => Outcome::of_error(CommandError::Handler { message: m }),
                        }
                    }
                },
                Handler::SetOption => {
                    let kv = Shellwords::from_line(raw_rest.as_slice());
                    if kv.command.len() == 0 {
                        let mut m: Vec<u8> = Vec::new();
                        bytes::extend_str(
                            &mut m,
                            "Bad arguments. Usage: `:set key field`, didn't provide `key`",
                        );
                        assert(m@
                            =~= "Bad arguments. Usage: `:set key field`, didn't provide `key`".spec_bytes());
                        Outcome::of_error(CommandError::Handler { message: m })
                    } else if kv.rest.len() == 0 {
                        let mut m: Vec<u8> = Vec::new();
                        bytes::extend_str(
                            &mut m,
                            "Bad arguments. Usage: `:set key field`, didn't provide `field`",
                        );
                        assert(m@
                            =~= "Bad arguments. Usage: `:set key field`, didn't provide `field`".spec_bytes());
                        Outcome::of_error(CommandError::Handler { message: m })
                    } else {
                        match options::set_option(
                            editor,
                            kv.command.as_slice(),
                            kv.rest.as_slice(),
                        ) {
                            Ok(()) => {
                                let mut st: Vec<u8> = Vec::new();
                                bytes::extend_str(&mut st, "'");
                                bytes::extend(&mut st, kv.command.as_slice());
                                bytes::extend_str(&mut st, "' is now set to ");
                                bytes::extend(&mut st, kv.rest.as_slice());
                                assert(st@ =~= "'".spec_bytes() + kv.command@
                                    + "' is now set to ".spec_bytes() + kv.rest@);
                                Outcome::of_status(st)
                            },
                            Err(m) => Outcome::of_error(CommandError::Handler { message: m }),
                        }
                    }
                },
                Handler::ToggleOption => {
                    if cmd_args.is_empty() {
                        let mut m: Vec<u8> = Vec::new();
                        bytes::extend_str(&mut m, "Bad arguments. Usage: `:toggle key [values]?`");
                        assert(m@ =~= "Bad arguments. Usage: `:toggle key [values]?`".spec_bytes());
                        Outcome::of_error(CommandError::Handler { message: m })
                    } else {
                        let lk = bytes::to_ascii_lower(cmd_args.get(0).as_slice());
                        match options::toggle_option(editor, &cmd_args) {
                            Ok(v) => {
                                let mut st: Vec<u8> = Vec::new();
                                bytes::extend_str(&mut st, "'");
                                bytes::extend(&mut st, lk.as_slice());
                                bytes::extend_str(&mut st, "' is now set to ");
                                bytes::extend(&mut st, v.as_slice());
                                assert(st@ =~= "'".spec_bytes() + lk@
                                    + "' is now set to ".spec_bytes() + v@);
                                Outcome::of_status(st)
                            },
                            Err(m) => Outcome::of_error(CommandError::Handler { message: m }),
                        }
                    }
                },
                _ => Outcome::quiet(),
            }
        },
    }
}

/// One prompt event, end to end: tokenize, resolve, parse, validate,
/// dispatch.
///
/// An empty command token does nothing. A bare decimal number is the
/// implicit goto-line command. An unknown command is an error only on
/// `Validate`; while the line is still being edited it is merely not yet
/// completable. Parse errors are likewise swallowed on `Update` and
/// surfaced on `Validate`; the arity check runs only on `Validate`; and a
/// handler error never closes the session or corrupts the editor model.
pub fn on_prompt_event(
    reg: &CommandRegistry,
    editor: &mut Editor,
    line: &[u8],
    event: PromptEvent,
) -> (r: Outcome)
    requires
        editor::wf(old(editor)),
        old(editor).next_doc_id < u64::MAX,
        old(editor).last_selection matches Some(l) ==> l >= 1,
        crate::registry::signatures_wf(reg.commands@),
    ensures
        editor::wf(final(editor)) || final(editor).views@.len() == 0,
        final(editor).last_selection matches Some(l) ==> l >= 1,
        ({
            let cmd = spec_command(line@);
            let rest = spec_rest(line@);
            if cmd.len() == 0 {
                *final(editor) == *old(editor) && quiet_outcome(&r)
            } else if bytes::all_digits(cmd) {
                r.effects@.len() == 0 && r.status is None && goto_post(
                    seq![cmd],
                    event,
                    *old(editor),
                    *final(editor),
                    &(match r.error {
                        Some(e) => Err::<(), CommandError>(e),
                        None => Ok::<(), CommandError>(()),
                    }),
                )
            } else {
                match spec_resolve(reg.commands@, cmd) {
                    None => *final(editor) == *old(editor) && (if event
                        == PromptEvent::Validate {
                        r.effects@.len() == 0 && r.status is None && (r.error matches Some(e) && e
                            matches CommandError::UnknownCommand { name } && name@ == cmd)
                    } else {
                        quiet_outcome(&r)
                    }),
                    Some(k) => {
                        let c = reg.commands@[k];
                        let parsed = if c.signature.parse_mode == args::ParseMode::Literal {
                            Ok::<ArgsView, ParseErrorView>(args::spec_parse_literal(rest))
                        } else {
                            args::spec_parse_structured(spec_words(rest), c.signature.flags@)
                        };
                        match parsed {
                            Err(pe) => *final(editor) == *old(editor) && (if event
                                == PromptEvent::Validate {
                                r.effects@.len() == 0 && r.status is None && (r.error matches Some(
                                    e,
                                ) && e matches CommandError::Parse(p) && p@ == pe)
                            } else {
                                quiet_outcome(&r)
                            }),
                            Ok(a) => {
                                if event == PromptEvent::Validate && !arity_ok_n(
                                    c.signature.positionals.0,
                                    c.signature.positionals.1,
                                    a.positionals.len() as int,
                                ) {
                                    *final(editor) == *old(editor) && r.effects@.len() == 0
                                        && r.status is None && (r.error matches Some(e) && e
                                        matches CommandError::Arity(ae) && arity_case(
                                        c,
                                        a.positionals.len() as int,
                                        &ae,
                                    ))
                                } else {
                                    handler_post(
                                        c,
                                        a,
                                        event,
                                        *old(editor),
                                        *final(editor),
                                        rest,
                                        &r,
                                    )
                                }
                            },
                        }
                    },
                }
            }
        }),
{
    let sw = Shellwords::from_line(line);
    if sw.command.len() == 0 {
        return Outcome::quiet();
    }
    if bytes::is_all_digits(sw.command.as_slice()) {
        let mut goto_args = Args::empty();
        goto_args.positionals.push(bytes::to_vec(sw.command.as_slice()));
        assert(goto_args@.positionals =~= seq![spec_command(line@)]);
        return match goto_line_number(editor, &goto_args, event) {
            Ok(()) => Outcome::quiet(),
            Err(e) => Outcome::of_error(e),
        };
    }
    match reg.resolve(sw.command.as_slice()) {
        None => {
            if event == PromptEvent::Validate {
                Outcome::of_error(
                    CommandError::UnknownCommand { name: bytes::to_vec(sw.command.as_slice()) },
                )
            } else {
                Outcome::quiet()
            }
        },
        Some(cmd) => {
            let parsed = args::from_signature(
                sw.rest.as_slice(),
                cmd.signature.parse_mode,
                &cmd.signature.flags,
            );
            match parsed {
                Err(pe) => {
                    if event == PromptEvent::Validate {
                        Outcome::of_error(CommandError::Parse(pe))
                    } else {
                        Outcome::quiet()
                    }
                },
                Ok(a) => {
                    if event == PromptEvent::Validate {
                        match cmd.ensure_signature(a.len()) {
                            Err(ae) => {
                                return Outcome::of_error(CommandError::Arity(ae));
                            },
                            Ok(()) => {},
                        }
                    }
                    let ghost av = a@;
                    let ghost pre = *editor;
                    let out = dispatch_handler(editor, cmd, a, &sw.rest, event);
                    proof {
                        assert(pre == *old(editor));
                        assert(handler_post(*cmd, av, event, *old(editor), *editor, sw.rest@, &out));
                    }
                    out
                },
            }
        },
    }
}

} // verus!
