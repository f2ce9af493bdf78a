//! A model of the editor state the built-in commands operate on.
//!
//! The interpreter never edits text: a document here is its bookkeeping
//! record (identity, display path, modified flag, line count) and a view is
//! a window onto one document with a cursor. Commands whose behavior is
//! pure bookkeeping (closing views and buffers, switching focus, arity-
//! checked navigation with preview) are interpreted on this model; work
//! that needs the outside world (writing files to disk) is returned as a
//! save plan for the surrounding editor to perform.

use vstd::prelude::*;
use vstd::seq_lib::group_filter_ensures;
use vstd::string::StringSliceAdditionalSpecFns;
use crate::bytes;
use crate::options::ConfigEntry;

verus! {

/// The bookkeeping record of one open buffer.
#[verifier::ext_equal]
pub struct Document {
    /// Unique identity.
    pub id: u64,
    /// The file this buffer belongs to; `None` for a scratch buffer.
    pub path: Option<Vec<u8>>,
    /// Whether the buffer holds unsaved changes.
    pub modified: bool,
    /// Number of lines (at least one).
    pub lines: usize,
}

/// A window onto one document.
#[verifier::ext_equal]
pub struct Pane {
    /// Unique identity.
    pub id: u64,
    /// The document shown in this view.
    pub doc: u64,
    /// The one-based line the cursor is on.
    pub cursor_line: usize,
}

/// The editor state the interpreter reads and updates.
#[verifier::ext_equal]
pub struct Editor {
    /// Open buffers; ids are unique.
    pub documents: Vec<Document>,
    /// Open views; never empty, each showing an existing document.
    pub views: Vec<Pane>,
    /// Index of the focused view.
    pub focused: usize,
    /// The cursor line saved before a goto preview, to restore on abort.
    pub last_selection: Option<usize>,
    /// Configuration options.
    pub config: Vec<ConfigEntry>,
    /// Source of fresh document ids.
    pub next_doc_id: u64,
    /// Exit code handed to the process when the last view closes.
    pub exit_code: i32,
}

/// Editor well-formedness: at least one view and one document, the focus
/// in range, unique document ids below the fresh-id counter, every view
/// showing an existing document, and counts at least one line.
pub open spec fn wf(e: &Editor) -> bool {
    &&& e.views@.len() > 0
    &&& e.documents@.len() > 0
    &&& (e.focused as int) < e.views@.len()
    &&& forall|i: int, j: int|
        0 <= i < j < e.documents@.len() ==> (#[trigger] e.documents@[i].id) != (
        #[trigger] e.documents@[j].id)
    &&& forall|i: int|
        0 <= i < e.documents@.len() ==> (#[trigger] e.documents@[i].id) < e.next_doc_id
    &&& forall|i: int|
        0 <= i < e.views@.len() ==> doc_exists(e.documents@, (#[trigger] e.views@[i]).doc)
    &&& forall|i: int| 0 <= i < e.documents@.len() ==> (#[trigger] e.documents@[i]).lines >= 1
    &&& forall|i: int| 0 <= i < e.views@.len() ==> (#[trigger] e.views@[i]).cursor_line >= 1
}

/// Index of the document with id `id`.
pub open spec fn spec_find_doc(docs: Seq<Document>, id: u64) -> Option<int>
    decreases docs.len(),
{
    if docs.len() == 0 {
        None
    } else if docs[0].id == id {
        Some(0int)
    } else {
        match spec_find_doc(docs.drop_first(), id) {
            Some(k) => Some(k + 1),
            None => None,
        }
    }
}

pub open spec fn doc_exists(docs: Seq<Document>, id: u64) -> bool {
    spec_find_doc(docs, id) is Some
}

pub proof fn lemma_find_doc(docs: Seq<Document>, id: u64)
    ensures
        spec_find_doc(docs, id) matches Some(k) ==> 0 <= k < docs.len() && docs[k].id == id,
        spec_find_doc(docs, id) is None ==> forall|i: int|
            0 <= i < docs.len() ==> (#[trigger] docs[i]).id != id,
    decreases docs.len(),
{
    if docs.len() > 0 {
        lemma_find_doc(docs.drop_first(), id);
        match spec_find_doc(docs.drop_first(), id) {
            Some(k) => {
                assert(docs.drop_first()[k] == docs[k + 1]);
            },
            None => {
                if !(docs[0].id == id) {
                    assert forall|i: int| 0 <= i < docs.len() implies (#[trigger] docs[i]).id
                        != id by {
                        if i > 0 {
                            assert(docs[i] == docs.drop_first()[i - 1]);
                        }
                    }
                }
            },
        }
    }
}

/// Finds the document with id `id`.
pub fn find_doc(docs: &Vec<Document>, id: u64) -> (r: Option<usize>)
    ensures
        match spec_find_doc(docs@, id) {
            Some(k) => r matches Some(i) && i == k,
            None => r is None,
        },
{
    let mut i: usize = 0;
    assert(docs@.skip(0int) =~= docs@);
    while i < docs.len()
        invariant
            0 <= i <= docs@.len(),
            spec_find_doc(docs@, id) == (match spec_find_doc(docs@.skip(i as int), id) {
                Some(k) => Some(k + i),
                None => None::<int>,
            }),
        decreases docs@.len() - i,
    {
        proof {
            assert(docs@.skip(i as int)[0] == docs@[i as int]);
            assert(docs@.skip(i as int).drop_first() =~= docs@.skip(i + 1));
        }
        if docs[i].id == id {
            return Some(i);
        }
        i += 1;
    }
    assert(docs@.skip(i as int) =~= Seq::<Document>::empty());
    None
}

/// The document shown in the focused view.
pub open spec fn current_doc(e: &Editor) -> u64 {
    e.views@[e.focused as int].doc
}

/// The ids of all documents, in order.
pub open spec fn doc_ids(docs: Seq<Document>) -> Seq<u64> {
    docs.map_values(|d: Document| d.id)
}

/// The modified documents, in order.
pub open spec fn spec_modified(docs: Seq<Document>) -> Seq<Document> {
    docs.filter(|d: Document| d.modified)
}

/// The display name of a document: its path, or a scratch marker.
pub open spec fn spec_display_name(d: Document) -> Seq<u8> {
    match d.path {
        Some(p) => p@,
        None => "[scratch]".spec_bytes(),
    }
}

/// The display name of a document.
pub fn display_name(d: &Document) -> (r: Vec<u8>)
    ensures
        r@ == spec_display_name(*d),
{
    match &d.path {
        Some(p) => bytes::to_vec(p.as_slice()),
        None => {
            let mut r: Vec<u8> = Vec::new();
            bytes::extend_str(&mut r, "[scratch]");
            assert(r@ =~= "[scratch]".spec_bytes());
            r
        },
    }
}

/// The ids of all documents but the one in the focused view.
pub fn buffer_gather_others_impl(editor: &mut Editor) -> (r: Vec<u64>)
    requires
        wf(old(editor)),
    ensures
        *final(editor) == *old(editor),
        r@ == doc_ids(old(editor).documents@.filter(
            |d: Document| d.id != current_doc(old(editor)),
        )),
{
    let current: u64 = editor.views[editor.focused].doc;
    let ghost pred = |d: Document| d.id != current_doc(editor);
    let mut r: Vec<u64> = Vec::new();
    let mut i: usize = 0;
    proof {
        reveal(Seq::filter);
        assert(editor.documents@.take(0int) =~= Seq::<Document>::empty());
        assert(r@ =~= doc_ids(editor.documents@.take(0int).filter(pred)));
    }
    while i < editor.documents.len()
        invariant
            0 <= i <= editor.documents@.len(),
            current == current_doc(editor),
            r@ == doc_ids(editor.documents@.take(i as int).filter(
                |d: Document| d.id != current_doc(editor),
            )),
        decreases editor.documents@.len() - i,
    {
        let ghost taken = editor.documents@.take(i as int);
        proof {
            reveal(Seq::filter);
            assert(editor.documents@.take(i + 1).drop_last() =~= taken);
            assert(editor.documents@.take(i + 1).last() == editor.documents@[i as int]);
        }
        let d: &Document = &editor.documents[i];
        if d.id != current {
            let ghost pre = r@;
            r.push(d.id);
            assert(r@ =~= doc_ids(editor.documents@.take(i + 1).filter(
                |d: Document| d.id != current_doc(editor),
            )));
        } else {
            assert(r@ =~= doc_ids(editor.documents@.take(i + 1).filter(
                |d: Document| d.id != current_doc(editor),
            )));
        }
        i += 1;
    }
    assert(editor.documents@.take(editor.documents@.len() as int) =~= editor.documents@);
    r
}

/// The ids of all documents.
pub fn buffer_gather_all_impl(editor: &mut Editor) -> (r: Vec<u64>)
    ensures
        *final(editor) == *old(editor),
        r@ == doc_ids(old(editor).documents@),
{
    let mut r: Vec<u64> = Vec::new();
    let mut i: usize = 0;
    while i < editor.documents.len()
        invariant
            0 <= i <= editor.documents@.len(),
            r@ == doc_ids(editor.documents@).take(i as int),
        decreases editor.documents@.len() - i,
    {
        let ghost pre = r@;
        r.push(editor.documents[i].id);
        assert(r@ =~= doc_ids(editor.documents@).take(i + 1));
        i += 1;
    }
    assert(doc_ids(editor.documents@).take(editor.documents@.len() as int) =~= doc_ids(
        editor.documents@,
    ));
    r
}

/// The status text reporting unsaved buffers: their count and names.
pub open spec fn spec_remaining_message(names: Seq<Seq<u8>>) -> Seq<u8> {
    bytes::spec_decimal(names.len() as nat) + " unsaved buffer".spec_bytes() + (if names.len()
        == 1 {
        Seq::<u8>::empty()
    } else {
        "s".spec_bytes()
    }) + " remaining: [".spec_bytes() + spec_name_list(names) + "]".spec_bytes()
}

/// Names joined by commas, each in double quotes.
pub open spec fn spec_name_list(names: Seq<Seq<u8>>) -> Seq<u8>
    decreases names.len(),
{
    if names.len() == 0 {
        Seq::empty()
    } else if names.len() == 1 {
        spec_quoted(names[0])
    } else {
        spec_quoted(names[0]) + ", ".spec_bytes() + spec_name_list(names.drop_first())
    }
}

pub open spec fn spec_quoted(n: Seq<u8>) -> Seq<u8> {
    seq![34u8] + n + seq![34u8]
}

proof fn lemma_name_list_snoc(names: Seq<Seq<u8>>, x: Seq<u8>)
    ensures
        names.len() == 0 ==> spec_name_list(names.push(x)) == spec_quoted(x),
        names.len() > 0 ==> spec_name_list(names.push(x)) == spec_name_list(names)
            + ", ".spec_bytes() + spec_quoted(x),
    decreases names.len(),
{
    if names.len() == 0 {
        assert(names.push(x)[0] == x);
        assert(names.push(x).len() == 1);
    } else {
        assert(names.push(x)[0] == names[0]);
        assert(names.push(x).drop_first() =~= names.drop_first().push(x));
        lemma_name_list_snoc(names.drop_first(), x);
        if names.len() == 1 {
            assert(names.drop_first().len() == 0);
            assert(spec_name_list(names.push(x)) == spec_quoted(names[0]) + ", ".spec_bytes()
                + spec_quoted(x));
            assert(spec_name_list(names) == spec_quoted(names[0]));
        } else {
            assert(spec_quoted(names[0]) + ", ".spec_bytes() + (spec_name_list(names.drop_first())
                + ", ".spec_bytes() + spec_quoted(x)) =~= (spec_quoted(names[0]) + ", ".spec_bytes()
                + spec_name_list(names.drop_first())) + ", ".spec_bytes() + spec_quoted(x));
        }
    }
}

/// Renders the name list of a message.
fn render_name_list(names: &Vec<Vec<u8>>) -> (r: Vec<u8>)
    ensures
        r@ == spec_name_list(crate::shellwords::word_views(names@)),
{
    let ghost nv = crate::shellwords::word_views(names@);
    let mut r: Vec<u8> = Vec::new();
    let mut i: usize = 0;
    assert(nv.take(0int) =~= Seq::<Seq<u8>>::empty());
    while i < names.len()
        invariant
            0 <= i <= names@.len(),
            nv == crate::shellwords::word_views(names@),
            nv.len() == names@.len(),
            r@ == spec_name_list(nv.take(i as int)),
        decreases names@.len() - i,
    {
        proof {
            assert(nv.take(i + 1) =~= nv.take(i as int).push(nv[i as int]));
            lemma_name_list_snoc(nv.take(i as int), nv[i as int]);
            assert(nv[i as int] == names@[i as int]@);
        }
        if i > 0 {
            bytes::extend_str(&mut r, ", ");
        }
        r.push(34);
        bytes::extend(&mut r, names[i].as_slice());
        r.push(34);
        assert(r@ =~= spec_name_list(nv.take(i + 1)));
        i += 1;
    }
    assert(nv.take(names@.len() as int) =~= nv);
    r
}

/// The names of the modified documents, in order.
pub open spec fn modified_names(docs: Seq<Document>) -> Seq<Seq<u8>> {
    spec_modified(docs).map_values(|d: Document| spec_display_name(d))
}

/// Collects the names of the modified documents.
fn gather_modified_names(docs: &Vec<Document>) -> (r: Vec<Vec<u8>>)
    ensures
        crate::shellwords::word_views(r@) == modified_names(docs@),
{
    let mut r: Vec<Vec<u8>> = Vec::new();
    let mut i: usize = 0;
    proof {
        reveal(Seq::filter);
        assert(docs@.take(0int) =~= Seq::<Document>::empty());
        assert(crate::shellwords::word_views(r@) =~= modified_names(docs@.take(0int)));
    }
    while i < docs.len()
        invariant
            0 <= i <= docs@.len(),
            crate::shellwords::word_views(r@) == modified_names(docs@.take(i as int)),
        decreases docs@.len() - i,
    {
        proof {
            reveal(Seq::filter);
            assert(docs@.take(i + 1).drop_last() =~= docs@.take(i as int));
            assert(docs@.take(i + 1).last() == docs@[i as int]);
        }
        if docs[i].modified {
            let ghost pre = crate::shellwords::word_views(r@);
            let name = display_name(&docs[i]);
            r.push(name);
            assert(crate::shellwords::word_views(r@) =~= pre.push(spec_display_name(
                docs@[i as int],
            )));
            assert(crate::shellwords::word_views(r@) =~= modified_names(docs@.take(i + 1)));
        } else {
            assert(crate::shellwords::word_views(r@) =~= modified_names(docs@.take(i + 1)));
        }
        i += 1;
    }
    assert(docs@.take(docs@.len() as int) =~= docs@);
    r
}

/// Succeeds when no buffer holds unsaved changes; otherwise reports the
/// modified buffers and, when the focused buffer itself is unmodified,
/// switches the focused view to the first modified one.
pub fn buffers_remaining_impl(editor: &mut Editor) -> (r: Result<(), Vec<u8>>)
    requires
        wf(old(editor)),
    ensures
        wf(final(editor)),
        r is Ok <==> spec_modified(old(editor).documents@).len() == 0,
        r is Ok ==> *final(editor) == *old(editor),
        r matches Err(m) ==> {
            &&& m@ == spec_remaining_message(modified_names(old(editor).documents@))
            &&& final(editor).documents == old(editor).documents
            &&& final(editor).focused == old(editor).focused
            &&& final(editor).last_selection == old(editor).last_selection
            &&& final(editor).config == old(editor).config
            &&& final(editor).next_doc_id == old(editor).next_doc_id
            &&& final(editor).exit_code == old(editor).exit_code
            &&& (if spec_modified(old(editor).documents@).contains(
                old(editor).documents@[spec_find_doc(
                    old(editor).documents@,
                    current_doc(old(editor)),
                ).unwrap()],
            ) {
                final(editor).views == old(editor).views
            } else {
                final(editor).views@ == old(editor).views@.update(
                    old(editor).focused as int,
                    (Pane {
                        doc: spec_modified(old(editor).documents@)[0].id,
                        ..old(editor).views@[old(editor).focused as int]
                    }),
                )
            })
        },
{
    let names = gather_modified_names(&editor.documents);
    let modified_count: usize = names.len();
    proof {
        assert(modified_names(editor.documents@).len() == spec_modified(
            editor.documents@,
        ).len());
    }
    if modified_count == 0 {
        return Ok(());
    }
    // Find the first modified document and check whether the focused one
    // is itself modified.
    let mut first_modified: usize = 0;
    let mut found: bool = false;
    let mut i: usize = 0;
    proof {
        reveal(Seq::filter);
        assert(editor.documents@.take(0int) =~= Seq::<Document>::empty());
    }
    while i < editor.documents.len()
        invariant
            0 <= i <= editor.documents@.len(),
            !found ==> spec_modified(editor.documents@.take(i as int)).len() == 0,
            found ==> 0 <= first_modified < i && editor.documents@[first_modified as int].modified
                && spec_modified(editor.documents@).len() > 0 && editor.documents@[first_modified as int]
                == spec_modified(editor.documents@)[0],
        decreases editor.documents@.len() - i,
    {
        proof {
            reveal(Seq::filter);
            assert(editor.documents@.take(i + 1).drop_last() =~= editor.documents@.take(i as int));
            assert(editor.documents@.take(i + 1).last() == editor.documents@[i as int]);
        }
        if !found && editor.documents[i].modified {
            first_modified = i;
            found = true;
            proof {
                lemma_modified_prefix(editor.documents@, i as int);
            }
        }
        i += 1;
    }
    proof {
        assert(editor.documents@.take(editor.documents@.len() as int) =~= editor.documents@);
        assert(found) by {
            if !found {
                assert(spec_modified(editor.documents@).len() == 0);
            }
        }
    }
    let current: u64 = editor.views[editor.focused].doc;
    let cur_idx: usize = match find_doc(&editor.documents, current) {
        Some(k) => k,
        None => {
            proof {
                assert(doc_exists(editor.documents@, current_doc(editor)));
            }
            proof {
                assert(false);
            }
            0
        },
    };
    let ghost old_e = *editor;
    proof {
        lemma_find_doc(editor.documents@, current);
    }
    if !editor.documents[cur_idx].modified {
        proof {
            broadcast use group_filter_ensures;

            lemma_find_doc(editor.documents@, current);
            lemma_modified_not_contains(editor.documents@, cur_idx as int);
        }
        let focused: usize = editor.focused;
        let first_id: u64 = editor.documents[first_modified].id;
        let view_id: u64 = editor.views[focused].id;
        let cursor: usize = editor.views[focused].cursor_line;
        let new_view = Pane { id: view_id, doc: first_id, cursor_line: cursor };
        editor.views.set(focused, new_view);
        proof {
            assert(doc_exists(editor.documents@, first_id)) by {
                lemma_doc_id_exists(editor.documents@, first_modified as int);
            }
            assert(editor.views@ =~= old_e.views@.update(
                old_e.focused as int,
                (Pane { doc: spec_modified(old_e.documents@)[0].id, ..old_e.views@[old_e.focused as int] }),
            ));
        }
    } else {
        proof {
            broadcast use group_filter_ensures;

            lemma_find_doc(editor.documents@, current);
            lemma_modified_contains(editor.documents@, cur_idx as int);
        }
    }
    let mut msg: Vec<u8> = Vec::new();
    let count_text = bytes::decimal(modified_count);
    bytes::extend(&mut msg, count_text.as_slice());
    bytes::extend_str(&mut msg, " unsaved buffer");
    if modified_count != 1 {
        bytes::extend_str(&mut msg, "s");
    }
    bytes::extend_str(&mut msg, " remaining: [");
    let list = render_name_list(&names);
    bytes::extend(&mut msg, list.as_slice());
    bytes::extend_str(&mut msg, "]");
    proof {
        assert(msg@ =~= spec_remaining_message(modified_names(old_e.documents@)));
    }
    Err(msg)
}

/// A document at a modified index is in the modified list.
proof fn lemma_modified_contains(docs: Seq<Document>, i: int)
    requires
        0 <= i < docs.len(),
        docs[i].modified,
    ensures
        spec_modified(docs).contains(docs[i]),
{
    broadcast use group_filter_ensures;

}

/// A document at an unmodified index is not in the modified list.
proof fn lemma_modified_not_contains(docs: Seq<Document>, i: int)
    requires
        0 <= i < docs.len(),
        !docs[i].modified,
    ensures
        !spec_modified(docs).contains(docs[i]),
{
    broadcast use group_filter_ensures;

    if spec_modified(docs).contains(docs[i]) {
        let j = choose|j: int|
            0 <= j < spec_modified(docs).len() && spec_modified(docs)[j] == docs[i];
        assert((|d: Document| d.modified)(spec_modified(docs)[j]));
    }
}

/// The id at any index exists in the document list.
proof fn lemma_doc_id_exists(docs: Seq<Document>, i: int)
    requires
        0 <= i < docs.len(),
    ensures
        doc_exists(docs, docs[i].id),
    decreases i,
{
    if docs[0].id == docs[i].id {
    } else {
        assert(i > 0);
        assert(docs.drop_first()[i - 1] == docs[i]);
        lemma_doc_id_exists(docs.drop_first(), i - 1);
    }
}

/// The first modified document of the list, found at index `i` with no
/// modified document before it, heads the modified list.
proof fn lemma_modified_prefix(docs: Seq<Document>, i: int)
    requires
        0 <= i < docs.len(),
        docs[i].modified,
        spec_modified(docs.take(i)).len() == 0,
    ensures
        spec_modified(docs).len() > 0,
        spec_modified(docs)[0] == docs[i],
{
    broadcast use group_filter_ensures;

    assert(docs =~= docs.take(i + 1) + docs.skip(i + 1));
    assert(docs.take(i + 1) =~= docs.take(i).push(docs[i]));
    reveal(Seq::filter);
    assert(docs.take(i + 1).drop_last() =~= docs.take(i));
    assert(docs.take(i + 1).last() == docs[i]);
    assert(spec_modified(docs.take(i + 1)) =~= seq![docs[i]]);
    Seq::<Document>::filter_distributes_over_add(
        docs.take(i + 1),
        docs.skip(i + 1),
        |d: Document| d.modified,
    );
    assert(spec_modified(docs) == spec_modified(docs.take(i + 1)) + spec_modified(
        docs.skip(i + 1),
    ));
}

/// Closes the focused view. When it is the last view and unsaved changes
/// remain, refuses (unless forced) and reports the modified buffers; no
/// view closes then.
pub fn quit(editor: &mut Editor, force: bool) -> (r: Result<(), Vec<u8>>)
    requires
        wf(old(editor)),
    ensures
        r is Ok <==> (force || old(editor).views@.len() > 1 || spec_modified(
            old(editor).documents@,
        ).len() == 0),
        r is Ok ==> {
            &&& final(editor).views@ == old(editor).views@.remove(old(editor).focused as int)
            &&& final(editor).focused == 0
            &&& final(editor).documents == old(editor).documents
            &&& final(editor).exit_code == old(editor).exit_code
            &&& (final(editor).views@.len() > 0 ==> wf(final(editor)))
        },
        r matches Err(m) ==> {
            &&& m@ == spec_remaining_message(modified_names(old(editor).documents@))
            &&& final(editor).views@.len() == old(editor).views@.len()
            &&& final(editor).documents == old(editor).documents
            &&& final(editor).exit_code == old(editor).exit_code
            &&& wf(final(editor))
        },
        final(editor).last_selection == old(editor).last_selection,
        final(editor).config == old(editor).config,
        final(editor).next_doc_id == old(editor).next_doc_id,
{
    if !force && editor.views.len() == 1 {
        match buffers_remaining_impl(editor) {
            Ok(()) => {},
            Err(m) => {
                return Err(m);
            },
        }
    }
    let ghost pre = *editor;
    let focused: usize = editor.focused;
    editor.views.remove(focused);
    editor.focused = 0;
    proof {
        assert forall|i: int| 0 <= i < editor.views@.len() implies doc_exists(
            editor.documents@,
            (#[trigger] editor.views@[i]).doc,
        ) by {
            if i < pre.focused {
                assert(editor.views@[i] == pre.views@[i]);
            } else {
                assert(editor.views@[i] == pre.views@[i + 1]);
            }
        }
        assert forall|i: int| 0 <= i < editor.views@.len() implies (
        #[trigger] editor.views@[i]).cursor_line >= 1 by {
            if i < pre.focused {
                assert(editor.views@[i] == pre.views@[i]);
            } else {
                assert(editor.views@[i] == pre.views@[i + 1]);
            }
        }
    }
    Ok(())
}

/// Closes all views. Refuses while unsaved changes remain, unless forced;
/// nothing closes then.
pub fn quit_all_impl(editor: &mut Editor, force: bool) -> (r: Result<(), Vec<u8>>)
    requires
        wf(old(editor)),
    ensures
        r is Ok <==> (force || spec_modified(old(editor).documents@).len() == 0),
        r is Ok ==> {
            &&& final(editor).views@.len() == 0
            &&& final(editor).documents == old(editor).documents
            &&& final(editor).exit_code == old(editor).exit_code
        },
        r matches Err(m) ==> {
            &&& m@ == spec_remaining_message(modified_names(old(editor).documents@))
            &&& final(editor).views@.len() == old(editor).views@.len()
            &&& final(editor).documents == old(editor).documents
            &&& final(editor).exit_code == old(editor).exit_code
            &&& wf(final(editor))
        },
        final(editor).last_selection == old(editor).last_selection,
        final(editor).config == old(editor).config,
        final(editor).next_doc_id == old(editor).next_doc_id,
{
    if !force {
        match buffers_remaining_impl(editor) {
            Ok(()) => {},
            Err(m) => {
                return Err(m);
            },
        }
    }
    editor.views = Vec::new();
    editor.focused = 0;
    Ok(())
}

/// Closes all views with an explicit process exit code.
pub fn cquit_impl(editor: &mut Editor, force: bool, code: i32) -> (r: Result<(), Vec<u8>>)
    requires
        wf(old(editor)),
    ensures
        final(editor).exit_code == code,
        r is Ok <==> (force || spec_modified(old(editor).documents@).len() == 0),
        r is Ok ==> final(editor).views@.len() == 0 && final(editor).documents == old(
            editor,
        ).documents,
        r matches Err(m) ==> {
            &&& m@ == spec_remaining_message(modified_names(old(editor).documents@))
            &&& final(editor).views@.len() == old(editor).views@.len()
            &&& final(editor).documents == old(editor).documents
            &&& wf(final(editor))
        },
        final(editor).last_selection == old(editor).last_selection,
        final(editor).config == old(editor).config,
        final(editor).next_doc_id == old(editor).next_doc_id,
{
    editor.exit_code = code;
    let r = quit_all_impl(editor, force);
    match r {
        Ok(()) => Ok(()),
        Err(m) => Err(m),
    }
}

/// Moves the focused view to the next or previous buffer, wrapping.
pub fn goto_buffer(editor: &mut Editor, forward: bool)
    requires
        wf(old(editor)),
    ensures
        wf(final(editor)),
        ({
            let docs = old(editor).documents@;
            let i = spec_find_doc(docs, current_doc(old(editor))).unwrap();
            let n = docs.len() as int;
            let j = if forward {
                if i + 1 == n {
                    0int
                } else {
                    i + 1
                }
            } else {
                if i == 0 {
                    n - 1
                } else {
                    i - 1
                }
            };
            final(editor).views@ == old(editor).views@.update(
                old(editor).focused as int,
                (Pane { doc: docs[j].id, ..old(editor).views@[old(editor).focused as int] }),
            )
        }),
        final(editor).documents == old(editor).documents,
        final(editor).focused == old(editor).focused,
        final(editor).last_selection == old(editor).last_selection,
        final(editor).config == old(editor).config,
        final(editor).next_doc_id == old(editor).next_doc_id,
        final(editor).exit_code == old(editor).exit_code,
{
    let current: u64 = editor.views[editor.focused].doc;
    let idx: usize = match find_doc(&editor.documents, current) {
        Some(k) => k,
        None => {
            proof {
                assert(doc_exists(editor.documents@, current_doc(editor)));
                assert(false);
            }
            0
        },
    };
    proof {
        lemma_find_doc(editor.documents@, current);
    }
    let n: usize = editor.documents.len();
    let j: usize = if forward {
        if idx + 1 == n {
            0
        } else {
            idx + 1
        }
    } else {
        if idx == 0 {
            n - 1
        } else {
            idx - 1
        }
    };
    let target: u64 = editor.documents[j].id;
    let focused: usize = editor.focused;
    let view_id: u64 = editor.views[focused].id;
    let cursor: usize = editor.views[focused].cursor_line;
    editor.views.set(focused, Pane { id: view_id, doc: target, cursor_line: cursor });
    proof {
        lemma_doc_id_exists(editor.documents@, j as int);
        assert(editor.views@ =~= old(editor).views@.update(
            old(editor).focused as int,
            (Pane { doc: target, ..old(editor).views@[old(editor).focused as int] }),
        ));
    }
}

/// The line count of the document in the focused view.
pub open spec fn current_doc_lines(e: &Editor) -> int {
    e.documents@[spec_find_doc(e.documents@, current_doc(e)).unwrap()].lines as int
}

/// The cursor line the goto preview moves to: the requested line, clamped
/// to the document (and at least one).
pub open spec fn clamped_line(e: &Editor, line: nat) -> int {
    let lines = current_doc_lines(e);
    if line < 1 {
        1
    } else if line > lines {
        lines
    } else {
        line as int
    }
}

/// Applies a goto-line preview: remembers the cursor position once, then
/// moves the cursor of the focused view to the requested line, clamped to
/// the document.
pub fn update_goto_line_number_preview(editor: &mut Editor, line: usize)
    requires
        wf(old(editor)),
    ensures
        wf(final(editor)),
        final(editor).last_selection == (if old(editor).last_selection is Some {
            old(editor).last_selection
        } else {
            Some(old(editor).views@[old(editor).focused as int].cursor_line)
        }),
        final(editor).views@ == old(editor).views@.update(
            old(editor).focused as int,
            (Pane {
                cursor_line: clamped_line(old(editor), line as nat) as usize,
                ..old(editor).views@[old(editor).focused as int]
            }),
        ),
        final(editor).documents == old(editor).documents,
        final(editor).focused == old(editor).focused,
        final(editor).config == old(editor).config,
        final(editor).next_doc_id == old(editor).next_doc_id,
        final(editor).exit_code == old(editor).exit_code,
{
    let focused: usize = editor.focused;
    if editor.last_selection.is_none() {
        editor.last_selection = Some(editor.views[focused].cursor_line);
    }
    let current: u64 = editor.views[focused].doc;
    let idx: usize = match find_doc(&editor.documents, current) {
        Some(k) => k,
        None => {
            proof {
                assert(doc_exists(editor.documents@, current_doc(editor)));
                assert(false);
            }
            0
        },
    };
    proof {
        lemma_find_doc(editor.documents@, current);
    }
    let lines: usize = editor.documents[idx].lines;
    let target: usize = if line < 1 {
        1
    } else if line > lines {
        lines
    } else {
        line
    };
    let view_id: u64 = editor.views[focused].id;
    editor.views.set(focused, Pane { id: view_id, doc: current, cursor_line: target });
    proof {
        assert(editor.views@ =~= old(editor).views@.update(
            old(editor).focused as int,
            (Pane {
                cursor_line: clamped_line(old(editor), line as nat) as usize,
                ..old(editor).views@[old(editor).focused as int]
            }),
        ));
    }
}

/// Rolls a goto-line preview back: restores the cursor saved before the
/// preview, exactly, and forgets it.
pub fn abort_goto_line_number_preview(editor: &mut Editor)
    requires
        wf(old(editor)),
        old(editor).last_selection matches Some(l) ==> l >= 1,
    ensures
        wf(final(editor)),
        final(editor).last_selection is None,
        final(editor).views@ == (match old(editor).last_selection {
            Some(l) => old(editor).views@.update(
                old(editor).focused as int,
                (Pane { cursor_line: l, ..old(editor).views@[old(editor).focused as int] }),
            ),
            None => old(editor).views@,
        }),
        final(editor).documents == old(editor).documents,
        final(editor).focused == old(editor).focused,
        final(editor).config == old(editor).config,
        final(editor).next_doc_id == old(editor).next_doc_id,
        final(editor).exit_code == old(editor).exit_code,
{
    let focused: usize = editor.focused;
    match editor.last_selection {
        Some(l) => {
            let view_id: u64 = editor.views[focused].id;
            let doc: u64 = editor.views[focused].doc;
            editor.views.set(focused, Pane { id: view_id, doc, cursor_line: l });
            editor.last_selection = None;
            proof {
                assert(editor.views@ =~= old(editor).views@.update(
                    old(editor).focused as int,
                    (Pane {
                        cursor_line: l,
                        ..old(editor).views@[old(editor).focused as int]
                    }),
                ));
            }
        },
        None => {
            editor.last_selection = None;
        },
    }
}

/// Opens a fresh scratch buffer in the focused view.
pub fn new_file(editor: &mut Editor)
    requires
        wf(old(editor)),
        old(editor).next_doc_id < u64::MAX,
    ensures
        wf(final(editor)),
        final(editor).documents@ == old(editor).documents@.push(
            (Document {
                id: old(editor).next_doc_id,
                path: None,
                modified: false,
                lines: 1,
            }),
        ),
        final(editor).views@ == old(editor).views@.update(
            old(editor).focused as int,
            (Pane {
                doc: old(editor).next_doc_id,
                cursor_line: 1,
                ..old(editor).views@[old(editor).focused as int]
            }),
        ),
        final(editor).next_doc_id == old(editor).next_doc_id + 1,
        final(editor).focused == old(editor).focused,
        final(editor).last_selection == old(editor).last_selection,
        final(editor).config == old(editor).config,
        final(editor).exit_code == old(editor).exit_code,
{
    let id: u64 = editor.next_doc_id;
    editor.documents.push(Document { id, path: None, modified: false, lines: 1 });
    editor.next_doc_id = id + 1;
    let focused: usize = editor.focused;
    let view_id: u64 = editor.views[focused].id;
    editor.views.set(focused, Pane { id: view_id, doc: id, cursor_line: 1 });
    proof {
        lemma_doc_id_exists(editor.documents@, editor.documents@.len() - 1);
        assert forall|i: int| 0 <= i < editor.views@.len() implies doc_exists(
            editor.documents@,
            (#[trigger] editor.views@[i]).doc,
        ) by {
            if i != old(editor).focused {
                assert(editor.views@[i] == old(editor).views@[i]);
                lemma_find_doc_extend(old(editor).documents@, editor.views@[i].doc, editor.documents@[editor.documents@.len() - 1]);
            }
        }
        assert(editor.views@ =~= old(editor).views@.update(
            old(editor).focused as int,
            (Pane {
                doc: old(editor).next_doc_id,
                cursor_line: 1,
                ..old(editor).views@[old(editor).focused as int]
            }),
        ));
    }
}

/// A document that exists still exists after another is appended.
proof fn lemma_find_doc_extend(docs: Seq<Document>, id: u64, d: Document)
    requires
        doc_exists(docs, id),
    ensures
        doc_exists(docs.push(d), id),
    decreases docs.len(),
{
    if docs.len() > 0 {
        assert(docs.push(d)[0] == docs[0]);
        assert(docs.push(d).drop_first() =~= docs.drop_first().push(d));
        if docs[0].id != id {
            lemma_find_doc_extend(docs.drop_first(), id, d);
        }
    }
}

/// The modified documents that have a file to be written to.
pub open spec fn spec_saveable(docs: Seq<Document>) -> Seq<Document> {
    docs.filter(|d: Document| d.modified && d.path is Some)
}

/// The modified scratch buffers, which cannot be written.
pub open spec fn spec_unsaveable(docs: Seq<Document>) -> Seq<Document> {
    docs.filter(|d: Document| d.modified && d.path is None)
}

/// The file of a document, by content.
pub open spec fn path_view(d: Document) -> Option<Seq<u8>> {
    match d.path {
        Some(p) => Some(p@),
        None => None,
    }
}

/// Two document lists with pointwise equal ids preserve existence.
proof fn lemma_same_ids_doc_exists(a: Seq<Document>, b: Seq<Document>, id: u64)
    requires
        a.len() == b.len(),
        forall|k: int| 0 <= k < a.len() ==> (#[trigger] a[k]).id == b[k].id,
        doc_exists(a, id),
    ensures
        doc_exists(b, id),
{
    lemma_find_doc(a, id);
    match spec_find_doc(a, id) {
        Some(k) => {
            lemma_doc_id_exists(b, k);
        },
        None => {},
    }
}

/// Plans the saving of every modified buffer: marks each modified buffer
/// that has a file as clean and returns its id for the surrounding editor
/// to write. Modified scratch buffers cannot be written; when
/// `write_scratch` asks for them and `force` does not override, the error
/// reports how many could not be. The save plan stands either way, as the
/// writes have already been queued.
pub fn write_all_impl(editor: &mut Editor, force: bool, write_scratch: bool) -> (r: (
    Vec<u64>,
    Option<Vec<u8>>,
))
    requires
        wf(old(editor)),
    ensures
        wf(final(editor)),
        r.0@ == doc_ids(spec_saveable(old(editor).documents@)),
        final(editor).documents@.len() == old(editor).documents@.len(),
        forall|k: int|
            0 <= k < old(editor).documents@.len() ==> {
                let d = #[trigger] old(editor).documents@[k];
                let f = final(editor).documents@[k];
                f.id == d.id && f.lines == d.lines && path_view(f) == path_view(d) && f.modified
                    == (d.modified && d.path is None)
            },
        final(editor).views == old(editor).views,
        final(editor).focused == old(editor).focused,
        final(editor).last_selection == old(editor).last_selection,
        final(editor).config == old(editor).config,
        final(editor).next_doc_id == old(editor).next_doc_id,
        final(editor).exit_code == old(editor).exit_code,
        ({
            let blocked = spec_unsaveable(old(editor).documents@).len();
            if write_scratch && !force && blocked > 0 {
                r.1 matches Some(m) && m@ == spec_scratch_error_message(blocked as nat)
            } else {
                r.1 is None
            }
        }),
{
    let ghost old_docs = editor.documents@;
    let mut saves: Vec<u64> = Vec::new();
    let mut blocked: usize = 0;
    let mut i: usize = 0;
    proof {
        reveal(Seq::filter);
        assert(old_docs.take(0int) =~= Seq::<Document>::empty());
    }
    while i < editor.documents.len()
        invariant
            0 <= i <= editor.documents@.len(),
            editor.documents@.len() == old_docs.len(),
            forall|k: int| i <= k < old_docs.len() ==> (#[trigger] editor.documents@[k])
                == old_docs[k],
            forall|k: int|
                0 <= k < i ==> {
                    let d = #[trigger] old_docs[k];
                    let f = editor.documents@[k];
                    f.id == d.id && f.lines == d.lines && path_view(f) == path_view(d)
                        && f.modified == (d.modified && d.path is None)
                },
            saves@ == doc_ids(spec_saveable(old_docs.take(i as int))),
            blocked == spec_unsaveable(old_docs.take(i as int)).len(),
            blocked <= i,
            editor.views == old(editor).views,
            editor.focused == old(editor).focused,
            editor.next_doc_id == old(editor).next_doc_id,
            editor.exit_code == old(editor).exit_code,
            editor.last_selection == old(editor).last_selection,
            editor.config == old(editor).config,
        decreases editor.documents@.len() - i,
    {
        proof {
            reveal(Seq::filter);
            assert(old_docs.take(i + 1).drop_last() =~= old_docs.take(i as int));
            assert(old_docs.take(i + 1).last() == old_docs[i as int]);
        }
        let is_modified: bool = editor.documents[i].modified;
        let has_path: bool = editor.documents[i].path.is_some();
        if is_modified && has_path {
            saves.push(editor.documents[i].id);
            let id: u64 = editor.documents[i].id;
            let path: Option<Vec<u8>> = match &editor.documents[i].path {
                Some(p) => Some(bytes::to_vec(p.as_slice())),
                None => None,
            };
            let lines: usize = editor.documents[i].lines;
            editor.documents.set(i, Document { id, path, modified: false, lines });
            assert(saves@ =~= doc_ids(spec_saveable(old_docs.take(i + 1))));
        } else {
            if is_modified && !has_path {
                blocked = blocked + 1;
            }
            assert(saves@ =~= doc_ids(spec_saveable(old_docs.take(i + 1))));
        }
        i += 1;
    }
    proof {
        assert(old_docs.take(old_docs.len() as int) =~= old_docs);
        assert forall|k: int| 0 <= k < editor.views@.len() implies doc_exists(
            editor.documents@,
            (#[trigger] editor.views@[k]).doc,
        ) by {
            lemma_same_ids_doc_exists(old_docs, editor.documents@, editor.views@[k].doc);
        }
        assert forall|a: int, b: int| 0 <= a < b < editor.documents@.len() implies (
        #[trigger] editor.documents@[a].id) != (#[trigger] editor.documents@[b].id) by {
            assert(editor.documents@[a].id == old_docs[a].id);
            assert(editor.documents@[b].id == old_docs[b].id);
        }
        assert forall|a: int| 0 <= a < editor.documents@.len() implies (
        #[trigger] editor.documents@[a].id) < editor.next_doc_id by {
            assert(editor.documents@[a].id == old_docs[a].id);
        }
        assert forall|a: int| 0 <= a < editor.documents@.len() implies (
        #[trigger] editor.documents@[a]).lines >= 1 by {
            assert(editor.documents@[a].lines == old_docs[a].lines);
        }
    }
    let err: Option<Vec<u8>> = if write_scratch && !force && blocked > 0 {
        let mut m: Vec<u8> = Vec::new();
        let count = bytes::decimal(blocked);
        bytes::extend(&mut m, count.as_slice());
        bytes::extend_str(&mut m, " buffer(s) without a filename cannot be written");
        proof {
            assert(m@ =~= spec_scratch_error_message(blocked as nat));
        }
        Some(m)
    } else {
        None
    };
    (saves, err)
}

/// The error text when scratch buffers cannot be written.
pub open spec fn spec_scratch_error_message(blocked: nat) -> Seq<u8> {
    bytes::spec_decimal(blocked) + " buffer(s) without a filename cannot be written".spec_bytes()
}

/// Index of the first document whose file is `p`.
pub open spec fn spec_find_by_path(docs: Seq<Document>, p: Seq<u8>) -> Option<int>
    decreases docs.len(),
{
    if docs.len() == 0 {
        None
    } else if path_view(docs[0]) == Some(p) {
        Some(0int)
    } else {
        match spec_find_by_path(docs.drop_first(), p) {
            Some(k) => Some(k + 1),
            None => None,
        }
    }
}

proof fn lemma_find_by_path(docs: Seq<Document>, p: Seq<u8>)
    ensures
        spec_find_by_path(docs, p) matches Some(k) ==> 0 <= k < docs.len() && path_view(docs[k])
            == Some(p),
    decreases docs.len(),
{
    if docs.len() > 0 && !(path_view(docs[0]) == Some(p)) {
        lemma_find_by_path(docs.drop_first(), p);
        match spec_find_by_path(docs.drop_first(), p) {
            Some(k) => {
                assert(docs.drop_first()[k] == docs[k + 1]);
            },
            None => {},
        }
    }
}

/// Finds the first document whose file is `p`.
fn find_by_path(docs: &Vec<Document>, p: &[u8]) -> (r: Option<usize>)
    ensures
        match spec_find_by_path(docs@, p@) {
            Some(k) => r matches Some(i) && i == k,
            None => r is None,
        },
{
    let mut i: usize = 0;
    assert(docs@.skip(0int) =~= docs@);
    while i < docs.len()
        invariant
            0 <= i <= docs@.len(),
            spec_find_by_path(docs@, p@) == (match spec_find_by_path(docs@.skip(i as int), p@) {
                Some(k) => Some(k + i),
                None => None::<int>,
            }),
        decreases docs@.len() - i,
    {
        proof {
            assert(docs@.skip(i as int)[0] == docs@[i as int]);
            assert(docs@.skip(i as int).drop_first() =~= docs@.skip(i + 1));
        }
        let hit: bool = match &docs[i].path {
            Some(q) => bytes::bytes_eq(q.as_slice(), p),
            None => false,
        };
        if hit {
            return Some(i);
        }
        i += 1;
    }
    assert(docs@.skip(i as int) =~= Seq::<Document>::empty());
    None
}

/// The ids of the documents the named arguments resolve to, in order.
pub open spec fn spec_gather_ids(docs: Seq<Document>, args: Seq<Seq<u8>>) -> Seq<u64>
    decreases args.len(),
{
    if args.len() == 0 {
        Seq::empty()
    } else {
        match spec_find_by_path(docs, args[0]) {
            Some(k) => seq![docs[k].id] + spec_gather_ids(docs, args.drop_first()),
            None => spec_gather_ids(docs, args.drop_first()),
        }
    }
}

/// The named arguments that resolve to no document, in order.
pub open spec fn spec_gather_missing(docs: Seq<Document>, args: Seq<Seq<u8>>) -> Seq<Seq<u8>>
    decreases args.len(),
{
    if args.len() == 0 {
        Seq::empty()
    } else {
        match spec_find_by_path(docs, args[0]) {
            Some(_) => spec_gather_missing(docs, args.drop_first()),
            None => seq![args[0]] + spec_gather_missing(docs, args.drop_first()),
        }
    }
}

/// Resolves positional arguments to document ids by file name. With no
/// arguments, the focused document. Arguments naming no open buffer are
/// returned separately for an error report.
pub fn buffer_gather_paths_impl(editor: &mut Editor, args: &crate::args::Args) -> (r: (
    Vec<u64>,
    Vec<Vec<u8>>,
))
    requires
        wf(old(editor)),
    ensures
        *final(editor) == *old(editor),
        args@.positionals.len() == 0 ==> r.0@ == seq![current_doc(old(editor))] && r.1@.len() == 0,
        args@.positionals.len() > 0 ==> {
            &&& r.0@ == spec_gather_ids(old(editor).documents@, args@.positionals)
            &&& crate::shellwords::word_views(r.1@) == spec_gather_missing(
                old(editor).documents@,
                args@.positionals,
            )
        },
{
    if args.is_empty() {
        let mut ids: Vec<u64> = Vec::new();
        ids.push(editor.views[editor.focused].doc);
        assert(ids@ =~= seq![current_doc(editor)]);
        return (ids, Vec::new());
    }
    let ghost av = args@.positionals;
    let mut ids: Vec<u64> = Vec::new();
    let mut missing: Vec<Vec<u8>> = Vec::new();
    let mut i: usize = 0;
    proof {
        assert(av.skip(0int) =~= av);
        assert(ids@ + spec_gather_ids(editor.documents@, av.skip(0int)) =~= spec_gather_ids(
            editor.documents@,
            av,
        ));
        assert(crate::shellwords::word_views(missing@) + spec_gather_missing(
            editor.documents@,
            av.skip(0int),
        ) =~= spec_gather_missing(editor.documents@, av));
    }
    while i < args.len()
        invariant
            0 <= i <= av.len(),
            av == args@.positionals,
            wf(editor),
            spec_gather_ids(editor.documents@, av) == ids@ + spec_gather_ids(
                editor.documents@,
                av.skip(i as int),
            ),
            spec_gather_missing(editor.documents@, av) == crate::shellwords::word_views(missing@)
                + spec_gather_missing(editor.documents@, av.skip(i as int)),
            *editor == *old(editor),
        decreases av.len() - i,
    {
        let ghost tail = av.skip(i as int);
        proof {
            assert(tail[0] == av[i as int]);
            assert(tail.drop_first() =~= av.skip(i + 1));
        }
        let arg: &Vec<u8> = args.get(i);
        match find_by_path(&editor.documents, arg.as_slice()) {
            Some(k) => {
                proof {
                    lemma_find_by_path(editor.documents@, arg@);
                }
                let ghost pre = ids@;
                ids.push(editor.documents[k].id);
                proof {
                    assert(ids@ =~= pre + seq![editor.documents@[k as int].id]);
                    assert(pre + seq![editor.documents@[k as int].id] + spec_gather_ids(
                        editor.documents@,
                        av.skip(i + 1),
                    ) =~= pre + (seq![editor.documents@[k as int].id] + spec_gather_ids(
                        editor.documents@,
                        av.skip(i + 1),
                    )));
                }
            },
            None => {
                let ghost pre = crate::shellwords::word_views(missing@);
                missing.push(bytes::to_vec(arg.as_slice()));
                proof {
                    assert(crate::shellwords::word_views(missing@) =~= pre.push(av[i as int]));
                    assert(pre.push(av[i as int]) + spec_gather_missing(
                        editor.documents@,
                        av.skip(i + 1),
                    ) =~= pre + (seq![av[i as int]] + spec_gather_missing(
                        editor.documents@,
                        av.skip(i + 1),
                    )));
                }
            },
        }
        i += 1;
    }
    proof {
        assert(av.skip(av.len() as int) =~= Seq::<Seq<u8>>::empty());
        assert(ids@ + Seq::<u64>::empty() =~= ids@);
        assert(crate::shellwords::word_views(missing@) + Seq::<Seq<u8>>::empty()
            =~= crate::shellwords::word_views(missing@));
    }
    (ids, missing)
}

/// Whether `ids` contains `id`.
fn contains_id(ids: &Vec<u64>, id: u64) -> (r: bool)
    ensures
        r == ids@.contains(id),
{
    let mut i: usize = 0;
    while i < ids.len()
        invariant
            0 <= i <= ids@.len(),
            forall|j: int| 0 <= j < i ==> ids@[j] != id,
        decreases ids@.len() - i,
    {
        if ids[i] == id {
            return true;
        }
        i += 1;
    }
    false
}

/// The documents that survive closing `ids`: those not named, and those
/// named but modified when the close is not forced.
pub open spec fn spec_kept(docs: Seq<Document>, ids: Seq<u64>, force: bool) -> Seq<Document> {
    docs.filter(|d: Document| !ids.contains(d.id) || (d.modified && !force))
}

/// The documents whose close was blocked by unsaved changes.
pub open spec fn spec_blocked(docs: Seq<Document>, ids: Seq<u64>, force: bool) -> Seq<Document> {
    docs.filter(|d: Document| ids.contains(d.id) && d.modified && !force)
}

/// Closes the named buffers. A named buffer with unsaved changes survives
/// (unless forced) and blocks the whole close with an error naming every
/// such buffer; the others close. A view left without its document moves
/// to the first surviving one; when nothing survives a fresh scratch
/// buffer takes their place. When close was blocked and the focused
/// buffer itself was not among the blocked ones, focus switches to the
/// first blocked buffer.
pub fn buffer_close_by_ids_impl(editor: &mut Editor, doc_ids_in: &Vec<u64>, force: bool) -> (r:
    Result<(), Vec<u8>>)
    requires
        wf(old(editor)),
        old(editor).next_doc_id < u64::MAX,
    ensures
        wf(final(editor)),
        r is Ok <==> spec_blocked(old(editor).documents@, doc_ids_in@, force).len() == 0,
        r matches Err(m) ==> m@ == spec_remaining_message(
            spec_blocked(old(editor).documents@, doc_ids_in@, force).map_values(
                |d: Document| spec_display_name(d),
            ),
        ),
        ({
            let kept = spec_kept(old(editor).documents@, doc_ids_in@, force);
            if kept.len() > 0 {
                final(editor).documents@ == kept && final(editor).next_doc_id == old(
                    editor,
                ).next_doc_id
            } else {
                final(editor).documents@ == seq![
                    (Document {
                        id: old(editor).next_doc_id,
                        path: None,
                        modified: false,
                        lines: 1,
                    }),
                ] && final(editor).next_doc_id == old(editor).next_doc_id + 1
            }
        }),
        final(editor).views@.len() == old(editor).views@.len(),
        final(editor).focused == old(editor).focused,
        final(editor).exit_code == old(editor).exit_code,
        final(editor).last_selection == old(editor).last_selection,
        final(editor).config == old(editor).config,
        forall|k: int|
            0 <= k < final(editor).views@.len() ==> {
                let v = #[trigger] final(editor).views@[k];
                let w = old(editor).views@[k];
                v.id == w.id && v.cursor_line == w.cursor_line
            },
        ({
            let fd = final_docs_spec(*old(editor), doc_ids_in@, force);
            let blocked = spec_blocked(old(editor).documents@, doc_ids_in@, force);
            let focused = old(editor).focused as int;
            if blocked.len() > 0 && !doc_blocked(
                fd,
                doc_ids_in@,
                force,
                rehomed_doc(*old(editor), doc_ids_in@, force, focused),
            ) {
                &&& final(editor).views@[focused].doc == blocked[0].id
                &&& forall|k: int|
                    0 <= k < final(editor).views@.len() && k != focused ==> (
                    #[trigger] final(editor).views@[k]).doc == rehomed_doc(
                        *old(editor),
                        doc_ids_in@,
                        force,
                        k,
                    )
            } else {
                forall|k: int|
                    0 <= k < final(editor).views@.len() ==> (#[trigger] final(editor).views@[k]).doc == rehomed_doc(*old(editor), doc_ids_in@, force, k)
            }
        }),
{
    let ghost old_docs = editor.documents@;
    let ghost keep_pred = |d: Document| !doc_ids_in@.contains(d.id) || (d.modified && !force);
    let ghost block_pred = |d: Document| doc_ids_in@.contains(d.id) && d.modified && !force;

    // Gather the blocked names before anything moves.
    let mut blocked_names: Vec<Vec<u8>> = Vec::new();
    let mut blocked_first: u64 = 0;
    let mut blocked_any: bool = false;
    let mut i: usize = 0;
    proof {
        reveal(Seq::filter);
        assert(old_docs.take(0int) =~= Seq::<Document>::empty());
        assert(crate::shellwords::word_views(blocked_names@) =~= old_docs.take(0int).filter(
            block_pred,
        ).map_values(|d: Document| spec_display_name(d)));
    }
    while i < editor.documents.len()
        invariant
            0 <= i <= old_docs.len(),
            editor.documents@ == old_docs,
            *editor == *old(editor),
            crate::shellwords::word_views(blocked_names@) == old_docs.take(i as int).filter(
                |d: Document| doc_ids_in@.contains(d.id) && d.modified && !force,
            ).map_values(|d: Document| spec_display_name(d)),
            blocked_any == (old_docs.take(i as int).filter(
                |d: Document| doc_ids_in@.contains(d.id) && d.modified && !force,
            ).len() > 0),
            blocked_any ==> blocked_first == old_docs.take(i as int).filter(
                |d: Document| doc_ids_in@.contains(d.id) && d.modified && !force,
            )[0].id,
        decreases old_docs.len() - i,
    {
        proof {
            reveal(Seq::filter);
            assert(old_docs.take(i + 1).drop_last() =~= old_docs.take(i as int));
            assert(old_docs.take(i + 1).last() == old_docs[i as int]);
        }
        let named: bool = contains_id(doc_ids_in, editor.documents[i].id);
        if named && editor.documents[i].modified && !force {
            let ghost pre = crate::shellwords::word_views(blocked_names@);
            let name = display_name(&editor.documents[i]);
            blocked_names.push(name);
            if !blocked_any {
                blocked_first = editor.documents[i].id;
                blocked_any = true;
            }
            assert(crate::shellwords::word_views(blocked_names@) =~= pre.push(spec_display_name(
                old_docs[i as int],
            )));
        }
        i += 1;
    }
    proof {
        assert(old_docs.take(old_docs.len() as int) =~= old_docs);
    }

    // Drop the documents that close, keeping the rest in order.
    let mut kept: Vec<Document> = Vec::new();
    let mut consumed: usize = 0;
    assert(old_docs.len() <= usize::MAX) by {
        assert(old_docs.len() == editor.documents@.len());
    }
    proof {
        reveal(Seq::filter);
        assert(old_docs.skip(0int) =~= old_docs);
        assert(old_docs.take(0int) =~= Seq::<Document>::empty());
    }
    while editor.documents.len() > 0
        invariant
            old_docs.len() <= usize::MAX,
            consumed <= old_docs.len(),
            editor.documents@ == old_docs.skip(consumed as int),
            kept@ == old_docs.take(consumed as int).filter(
                |d: Document| !doc_ids_in@.contains(d.id) || (d.modified && !force),
            ),
            editor.views == old(editor).views,
            editor.focused == old(editor).focused,
            editor.next_doc_id == old(editor).next_doc_id,
            editor.exit_code == old(editor).exit_code,
            editor.last_selection == old(editor).last_selection,
            editor.config == old(editor).config,
        decreases editor.documents@.len(),
    {
        proof {
            reveal(Seq::filter);
            assert(editor.documents@.len() > 0);
            assert(editor.documents@ == old_docs.skip(consumed as int));
            assert(consumed <= old_docs.len());
            assert(old_docs.skip(consumed as int).len() == old_docs.len() - consumed);
            assert(consumed < old_docs.len());
            assert(old_docs.take(consumed + 1).drop_last() =~= old_docs.take(consumed as int));
            assert(old_docs.take(consumed + 1).last() == old_docs[consumed as int]);
            assert(old_docs.skip(consumed as int)[0] == old_docs[consumed as int]);
            assert(old_docs.skip(consumed as int).drop_first() =~= old_docs.skip(consumed + 1));
        }
        let d: Document = editor.documents.remove(0);
        assert(d == old_docs[consumed as int]);
        let named: bool = contains_id(doc_ids_in, d.id);
        let keep: bool = !named || (d.modified && !force);
        if keep {
            let ghost pre = kept@;
            kept.push(d);
            assert(kept@ =~= pre.push(old_docs[consumed as int]));
        }
        consumed += 1;
    }
    proof {
        assert(old_docs.skip(old_docs.len() as int) =~= Seq::<Document>::empty());
        assert(consumed == old_docs.len()) by {
            assert(old_docs.skip(consumed as int).len() == 0);
        }
        assert(old_docs.take(old_docs.len() as int) =~= old_docs);
        assert(kept@ == spec_kept(old_docs, doc_ids_in@, force));
    }
    if kept.len() == 0 {
        let id: u64 = editor.next_doc_id;
        kept.push(Document { id, path: None, modified: false, lines: 1 });
        editor.next_doc_id = id + 1;
        assert(kept@ =~= seq![
            (Document { id: old(editor).next_doc_id, path: None, modified: false, lines: 1 }),
        ]);
    }
    proof {
        assert(kept@.len() > 0);
        // Every kept document keeps its old identity facts.
        assert forall|a: int, b: int| 0 <= a < b < kept@.len() implies (
        #[trigger] kept@[a].id) != (#[trigger] kept@[b].id) by {
            lemma_kept_ids(old_docs, doc_ids_in@, force, *old(editor), kept@, a, b);
        }
        assert forall|a: int| 0 <= a < kept@.len() implies (#[trigger] kept@[a]).id
            < editor.next_doc_id by {
            lemma_kept_id_bound(old_docs, doc_ids_in@, force, *old(editor), kept@, a);
        }
        assert forall|a: int| 0 <= a < kept@.len() implies (#[trigger] kept@[a]).lines >= 1 by {
            lemma_kept_lines(old_docs, doc_ids_in@, force, *old(editor), kept@, a);
        }
    }
    editor.documents = kept;

    // Re-home views whose document closed.
    let fallback: u64 = editor.documents[0].id;
    proof {
        lemma_doc_id_exists(editor.documents@, 0);
    }
    let mut v: usize = 0;
    while v < editor.views.len()
        invariant
            0 <= v <= editor.views@.len(),
            editor.views@.len() == old(editor).views@.len(),
            editor.documents@.len() > 0,
            fallback == editor.documents@[0].id,
            doc_exists(editor.documents@, fallback),
            forall|k: int|
                0 <= k < v ==> doc_exists(
                    editor.documents@,
                    (#[trigger] editor.views@[k]).doc,
                ),
            forall|k: int|
                0 <= k < v ==> (#[trigger] editor.views@[k]).doc == rehomed_doc(
                    *old(editor),
                    doc_ids_in@,
                    force,
                    k,
                ),
            forall|k: int|
                v <= k < editor.views@.len() ==> (#[trigger] editor.views@[k]).doc == old(
                    editor,
                ).views@[k].doc,
            forall|k: int|
                0 <= k < editor.views@.len() ==> {
                    let vv = #[trigger] editor.views@[k];
                    let w = old(editor).views@[k];
                    vv.id == w.id && vv.cursor_line == w.cursor_line
                },
            forall|k: int|
                0 <= k < editor.views@.len() ==> (#[trigger] editor.views@[k]).cursor_line >= 1,
            editor.documents@ == final_docs_spec(*old(editor), doc_ids_in@, force),
            editor.focused == old(editor).focused,
            (if spec_kept(old_docs, doc_ids_in@, force).len() > 0 {
                editor.next_doc_id == old(editor).next_doc_id
            } else {
                editor.next_doc_id as int == old(editor).next_doc_id as int + 1
            }),
            editor.exit_code == old(editor).exit_code,
            editor.last_selection == old(editor).last_selection,
            editor.config == old(editor).config,
        decreases editor.views@.len() - v,
    {
        let doc: u64 = editor.views[v].doc;
        let exists: bool = match find_doc(&editor.documents, doc) {
            Some(_) => true,
            None => false,
        };
        if !exists {
            let view_id: u64 = editor.views[v].id;
            let cursor: usize = editor.views[v].cursor_line;
            editor.views.set(v, Pane { id: view_id, doc: fallback, cursor_line: cursor });
        }
        proof {
            assert(editor.views@[v as int].doc == rehomed_doc(
                *old(editor),
                doc_ids_in@,
                force,
                v as int,
            ));
        }
        v += 1;
    }

    if blocked_any {
        // If the focused buffer itself is not blocked, focus the first
        // blocked one.
        let focused: usize = editor.focused;
        let cur: u64 = editor.views[focused].doc;
        let idx_opt = find_doc(&editor.documents, cur);
        proof {
            lemma_find_doc(editor.documents@, cur);
        }
        let cur_blocked: bool = contains_id(doc_ids_in, cur) && (match idx_opt {
            Some(k) => editor.documents[k].modified && !force,
            None => false,
        });
        proof {
            assert(cur == rehomed_doc(*old(editor), doc_ids_in@, force, editor.focused as int));
            assert(cur_blocked == doc_blocked(
                final_docs_spec(*old(editor), doc_ids_in@, force),
                doc_ids_in@,
                force,
                cur,
            ));
            assert(spec_blocked(old_docs, doc_ids_in@, force).len() > 0);
            assert(blocked_first == spec_blocked(old_docs, doc_ids_in@, force)[0].id);
        }
        if !cur_blocked {
            let view_id: u64 = editor.views[focused].id;
            let cursor: usize = editor.views[focused].cursor_line;
            editor.views.set(focused, Pane { id: view_id, doc: blocked_first, cursor_line: cursor });
            proof {
                lemma_blocked_in_kept(old_docs, doc_ids_in@, force);
                assert(doc_exists(editor.documents@, blocked_first)) by {
                    let blocked = spec_blocked(old_docs, doc_ids_in@, force);
                    assert(blocked[0] == spec_kept(old_docs, doc_ids_in@, force)[blocked_index(
                        old_docs,
                        doc_ids_in@,
                        force,
                    )]);
                    lemma_doc_id_exists(
                        editor.documents@,
                        blocked_index(old_docs, doc_ids_in@, force),
                    );
                }
            }
        }
        let mut msg: Vec<u8> = Vec::new();
        let count = bytes::decimal(blocked_names.len());
        bytes::extend(&mut msg, count.as_slice());
        bytes::extend_str(&mut msg, " unsaved buffer");
        if blocked_names.len() != 1 {
            bytes::extend_str(&mut msg, "s");
        }
        bytes::extend_str(&mut msg, " remaining: [");
        let list = render_name_list(&blocked_names);
        bytes::extend(&mut msg, list.as_slice());
        bytes::extend_str(&mut msg, "]");
        proof {
            assert(msg@ =~= spec_remaining_message(
                spec_blocked(old_docs, doc_ids_in@, force).map_values(
                    |d: Document| spec_display_name(d),
                ),
            ));
        }
        Err(msg)
    } else {
        Ok(())
    }
}

/// The document list after a close: the kept documents, or one fresh
/// scratch buffer when none survives.
pub open spec fn final_docs_spec(e: Editor, ids: Seq<u64>, force: bool) -> Seq<Document> {
    let kept = spec_kept(e.documents@, ids, force);
    if kept.len() > 0 {
        kept
    } else {
        seq![(Document { id: e.next_doc_id, path: None, modified: false, lines: 1 })]
    }
}

/// Where a view looks after a close: at its old document when that
/// survives, else at the first surviving document.
pub open spec fn rehomed_doc(pre: Editor, ids: Seq<u64>, force: bool, k: int) -> u64 {
    let fd = final_docs_spec(pre, ids, force);
    if doc_exists(fd, pre.views@[k].doc) {
        pre.views@[k].doc
    } else {
        fd[0].id
    }
}

/// Whether the named document survived a close only because of unsaved
/// changes.
pub open spec fn doc_blocked(fd: Seq<Document>, ids: Seq<u64>, force: bool, id: u64) -> bool {
    &&& ids.contains(id)
    &&& (spec_find_doc(fd, id) matches Some(x) && fd[x].modified)
    &&& !force
}

/// The index of the first blocked document within the kept list.
pub open spec fn blocked_index(docs: Seq<Document>, ids: Seq<u64>, force: bool) -> int {
    choose|k: int|
        0 <= k < spec_kept(docs, ids, force).len() && spec_kept(docs, ids, force)[k]
            == spec_blocked(docs, ids, force)[0]
}

/// A blocked document always survives the close.
proof fn lemma_blocked_in_kept(docs: Seq<Document>, ids: Seq<u64>, force: bool)
    requires
        spec_blocked(docs, ids, force).len() > 0,
    ensures
        0 <= blocked_index(docs, ids, force) < spec_kept(docs, ids, force).len(),
        spec_kept(docs, ids, force)[blocked_index(docs, ids, force)] == spec_blocked(
            docs,
            ids,
            force,
        )[0],
{
    broadcast use group_filter_ensures;

    let b = spec_blocked(docs, ids, force)[0];
    assert(docs.contains(b)) by {
        lemma_filter_element_of(docs, |d: Document| ids.contains(d.id) && d.modified && !force, 0);
    }
    let i = choose|i: int| 0 <= i < docs.len() && docs[i] == b;
    assert((|d: Document| ids.contains(d.id) && d.modified && !force)(b)) by {
        Seq::<Document>::lemma_filter_pred(
            docs,
            |d: Document| ids.contains(d.id) && d.modified && !force,
            0,
        );
    }
    assert((|d: Document| !ids.contains(d.id) || (d.modified && !force))(docs[i]));
    assert(spec_kept(docs, ids, force).contains(docs[i])) by {
        Seq::<Document>::lemma_filter_contains(
            docs,
            |d: Document| !ids.contains(d.id) || (d.modified && !force),
            i,
        );
    }
    let k = choose|k: int|
        0 <= k < spec_kept(docs, ids, force).len() && spec_kept(docs, ids, force)[k] == docs[i];
    assert(0 <= blocked_index(docs, ids, force) < spec_kept(docs, ids, force).len()
        && spec_kept(docs, ids, force)[blocked_index(docs, ids, force)] == b) by {
        assert(spec_kept(docs, ids, force)[k] == b);
    }
}

/// An element of a filtered sequence is an element of the original.
proof fn lemma_filter_element_of(
    docs: Seq<Document>,
    pred: spec_fn(Document) -> bool,
    i: int,
)
    requires
        0 <= i < docs.filter(pred).len(),
    ensures
        docs.contains(docs.filter(pred)[i]),
    decreases docs.len(),
{
    reveal(Seq::filter);
    if docs.len() > 0 {
        if pred(docs.last()) && i == docs.filter(pred).len() - 1 {
            assert(docs.filter(pred)[i] == docs.last());
            assert(docs[docs.len() - 1] == docs.last());
        } else {
            lemma_filter_element_of(docs.drop_last(), pred, i);
            assert(docs.drop_last().filter(pred)[i] == docs.filter(pred)[i]);
            let j = choose|j: int|
                0 <= j < docs.drop_last().len() && docs.drop_last()[j] == docs.filter(pred)[i];
            assert(docs[j] == docs.filter(pred)[i]);
        }
    }
}

/// Kept documents inherit distinct ids from the original list.
proof fn lemma_kept_ids(
    docs: Seq<Document>,
    ids: Seq<u64>,
    force: bool,
    e: Editor,
    kept: Seq<Document>,
    a: int,
    b: int,
)
    requires
        wf(&e),
        e.documents@ == docs,
        kept == final_docs_spec(e, ids, force),
        0 <= a < b < kept.len(),
    ensures
        kept[a].id != kept[b].id,
{
    lemma_kept_sub(docs, ids, force, e, kept);
    assert(kept[a].id != kept[b].id);
}

/// Kept document ids stay below the fresh-id counter after the close.
proof fn lemma_kept_id_bound(
    docs: Seq<Document>,
    ids: Seq<u64>,
    force: bool,
    e: Editor,
    kept: Seq<Document>,
    a: int,
)
    requires
        wf(&e),
        e.documents@ == docs,
        kept == final_docs_spec(e, ids, force),
        0 <= a < kept.len(),
    ensures
        kept[a].id <= e.next_doc_id,
        spec_kept(docs, ids, force).len() > 0 ==> kept[a].id < e.next_doc_id,
{
    lemma_kept_sub(docs, ids, force, e, kept);
}

/// Kept documents keep their line counts.
proof fn lemma_kept_lines(
    docs: Seq<Document>,
    ids: Seq<u64>,
    force: bool,
    e: Editor,
    kept: Seq<Document>,
    a: int,
)
    requires
        wf(&e),
        e.documents@ == docs,
        kept == final_docs_spec(e, ids, force),
        0 <= a < kept.len(),
    ensures
        kept[a].lines >= 1,
{
    lemma_kept_sub(docs, ids, force, e, kept);
}

/// Every pair of final documents is either a pair of distinct originals
/// or the one fresh scratch buffer; the facts the well-formedness clauses
/// need follow.
proof fn lemma_kept_sub(docs: Seq<Document>, ids: Seq<u64>, force: bool, e: Editor, kept: Seq<Document>)
    requires
        wf(&e),
        e.documents@ == docs,
        kept == final_docs_spec(e, ids, force),
    ensures
        forall|a: int, b: int| 0 <= a < b < kept.len() ==> (#[trigger] kept[a].id) != (
        #[trigger] kept[b].id),
        forall|a: int| 0 <= a < kept.len() ==> (#[trigger] kept[a]).id <= e.next_doc_id,
        spec_kept(docs, ids, force).len() > 0 ==> forall|a: int|
            0 <= a < kept.len() ==> (#[trigger] kept[a]).id < e.next_doc_id,
        forall|a: int| 0 <= a < kept.len() ==> (#[trigger] kept[a]).lines >= 1,
{
    let k = spec_kept(docs, ids, force);
    if k.len() > 0 {
        lemma_filter_sub_unique(docs, |d: Document| !ids.contains(d.id) || (d.modified && !force));
        assert forall|a: int| 0 <= a < kept.len() implies (#[trigger] kept[a]).lines >= 1 by {
            lemma_filter_element_of(
                docs,
                |d: Document| !ids.contains(d.id) || (d.modified && !force),
                a,
            );
            let j = choose|j: int| 0 <= j < docs.len() && docs[j] == kept[a];
        }
        assert forall|a: int| 0 <= a < kept.len() implies (#[trigger] kept[a]).id
            < e.next_doc_id by {
            lemma_filter_element_of(
                docs,
                |d: Document| !ids.contains(d.id) || (d.modified && !force),
                a,
            );
            let j = choose|j: int| 0 <= j < docs.len() && docs[j] == kept[a];
        }
    }
}

/// Distinct positions of a filtered sequence of documents with unique ids
/// hold documents with distinct ids.
proof fn lemma_filter_sub_unique(docs: Seq<Document>, pred: spec_fn(Document) -> bool)
    requires
        forall|i: int, j: int|
            0 <= i < j < docs.len() ==> (#[trigger] docs[i].id) != (#[trigger] docs[j].id),
    ensures
        forall|a: int, b: int|
            0 <= a < b < docs.filter(pred).len() ==> (#[trigger] docs.filter(pred)[a].id) != (
            #[trigger] docs.filter(pred)[b].id),
    decreases docs.len(),
{
    reveal(Seq::filter);
    if docs.len() > 0 {
        let t = docs.drop_last();
        assert forall|i: int, j: int|
            0 <= i < j < t.len() implies (#[trigger] t[i].id) != (#[trigger] t[j].id) by {
            assert(docs[i] == t[i]);
            assert(docs[j] == t[j]);
        }
        lemma_filter_sub_unique(t, pred);
        if pred(docs.last()) {
            assert forall|a: int, b: int|
                0 <= a < b < docs.filter(pred).len() implies (
            #[trigger] docs.filter(pred)[a].id) != (#[trigger] docs.filter(pred)[b].id) by {
                if b < docs.filter(pred).len() - 1 {
                    assert(docs.filter(pred)[a] == t.filter(pred)[a]);
                    assert(docs.filter(pred)[b] == t.filter(pred)[b]);
                } else {
                    assert(docs.filter(pred)[b] == docs.last());
                    assert(docs.filter(pred)[a] == t.filter(pred)[a]);
                    lemma_filter_element_of(t, pred, a);
                    let j = choose|j: int| 0 <= j < t.len() && t[j] == t.filter(pred)[a];
                    assert(docs[j] == t.filter(pred)[a]);
                    assert(docs[j].id != docs[docs.len() - 1].id);
                    assert(docs[docs.len() - 1] == docs.last());
                }
            }
        }
    }
}

} // verus!
