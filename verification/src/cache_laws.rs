//! What is cached of a document stays true of it, whatever is done to the document.
use crate::document::DocumentView;
use crate::document_laws::{later_states_follow, operations_move_on};
use crate::editor::{new_editor, source_projection, EditorModel};
use crate::editor_keys::EditorKey;
use crate::file_explorer::{markdown_events, outline, ExplorerModel};
use crate::root::RootModel;
use crate::search::all_matches;
use std::ops::Range;
use vstd::prelude::*;

verus! {

impl EditorModel {
    /// What the editor has cached is of the document's revision or an earlier one, and what is
    /// of the document's revision is true of the document.
    pub open spec fn coherent(self, doc: DocumentView) -> bool {
        &&& self.cached_text matches Some((revision, text)) ==> {
            &&& revision <= doc.revision
            &&& revision == doc.revision ==> text == doc.text
        }
        &&& self.cached_search matches Some(search) ==> {
            &&& search.revision <= doc.revision
            &&& search.revision == doc.revision ==> search.matches == all_matches(
                doc.text,
                search.query,
            )
        }
        &&& self.cached_projection matches Some((revision, inline, projection)) ==> {
            &&& revision <= doc.revision
            &&& revision == doc.revision ==> projection == source_projection(doc.text)
        }
    }
}

impl RootModel {
    /// The text that the window has cached is of the document's revision or an earlier one, and
    /// true of the document if it is of its revision.
    pub open spec fn coherent(self, doc: DocumentView) -> bool {
        self.cached_doc_text matches Some((revision, text)) ==> {
            &&& revision <= doc.revision
            &&& revision == doc.revision ==> text == doc.text
        }
    }
}

impl ExplorerModel {
    /// The outline that is cached is of the document's revision or an earlier one, and true of
    /// the document if it is of its revision.
    pub open spec fn coherent(self, doc: DocumentView) -> bool {
        self.cached_outline matches Some((revision, items)) ==> {
            &&& revision <= doc.revision
            &&& revision == doc.revision ==> items == outline(markdown_events(doc.text))
        }
    }
}

/// A new editor has nothing cached that could be wrong.
pub proof fn a_new_editor_is_coherent(doc: DocumentView)
    ensures
        new_editor().coherent(doc),
{
}

/// What the editor reads through its caches is what the document holds, and the caches stay true
/// whatever the editor does.
pub proof fn the_editor_reads_the_document(
    editor: EditorModel,
    doc: DocumentView,
    inline_revision: u64,
    forward: bool,
)
    requires
        editor.coherent(doc),
    ensures
        editor.current_text(doc) == doc.text,
        editor.found(doc) == all_matches(doc.text, editor.search_query),
        editor.projection(doc, inline_revision) == source_projection(doc.text),
        editor.framed(doc, inline_revision).coherent(doc),
        editor.select_match(doc).0.coherent(editor.select_match(doc).1),
        editor.jump(doc, forward).0.coherent(editor.jump(doc, forward).1),
        editor.activate(doc).0.coherent(editor.activate(doc).1),
{
}

/// What the window and the outline panel read through their caches is what the document holds,
/// and the caches stay true when they are filled.
pub proof fn the_window_reads_the_document(
    root: RootModel,
    explorer: ExplorerModel,
    doc: DocumentView,
)
    requires
        root.coherent(doc),
        explorer.coherent(doc),
    ensures
        root.doc_text(doc) == doc.text,
        (RootModel {
            cached_doc_text: Some((doc.revision, root.doc_text(doc))),
            ..root
        }).coherent(doc),
        explorer.items(doc) == outline(markdown_events(doc.text)),
        explorer.with_items(doc).coherent(doc),
{
}

proof fn editor_cache_outlives_changes(editor: EditorModel, doc: DocumentView, next: DocumentView)
    requires
        editor.coherent(doc),
        next.follows(doc),
    ensures
        editor.coherent(next),
{
}

/// Caches that are true of a document are true of every later state of it.
pub proof fn caches_outlive_changes(
    editor: EditorModel,
    root: RootModel,
    explorer: ExplorerModel,
    doc: DocumentView,
    next: DocumentView,
)
    requires
        editor.coherent(doc),
        root.coherent(doc),
        explorer.coherent(doc),
        next.follows(doc),
    ensures
        editor.coherent(next),
        root.coherent(next),
        explorer.coherent(next),
{
}

/// Caches that are true of a document stay true when its text is changed, until the revisions
/// are used up.
pub proof fn edits_keep_the_caches_true(
    editor: EditorModel,
    root: RootModel,
    explorer: ExplorerModel,
    doc: DocumentView,
    first: int,
    second: int,
    text: Seq<char>,
)
    requires
        editor.coherent(doc),
        root.coherent(doc),
        explorer.coherent(doc),
        doc.revision < u64::MAX,
    ensures
        editor.coherent(doc.set_text(text)),
        editor.coherent(doc.insert(first, text)),
        editor.coherent(doc.delete_range(first, second)),
        editor.coherent(doc.undo()),
        editor.coherent(doc.redo()),
        root.coherent(doc.set_text(text)),
        root.coherent(doc.insert(first, text)),
        root.coherent(doc.delete_range(first, second)),
        root.coherent(doc.undo()),
        root.coherent(doc.redo()),
        explorer.coherent(doc.set_text(text)),
        explorer.coherent(doc.insert(first, text)),
        explorer.coherent(doc.delete_range(first, second)),
        explorer.coherent(doc.undo()),
        explorer.coherent(doc.redo()),
{
    operations_move_on(doc, first, second, text);
    caches_outlive_changes(editor, root, explorer, doc, doc.set_text(text));
    caches_outlive_changes(editor, root, explorer, doc, doc.insert(first, text));
    caches_outlive_changes(editor, root, explorer, doc, doc.delete_range(first, second));
    caches_outlive_changes(editor, root, explorer, doc, doc.undo());
    caches_outlive_changes(editor, root, explorer, doc, doc.redo());
}

/// Text that is typed, pasted or put in by the platform gives a later state of the document.
pub proof fn typing_moves_on(
    doc: DocumentView,
    composing: bool,
    target: Range<usize>,
    text: Seq<char>,
    selected_utf16: Option<Range<usize>>,
)
    requires
        doc.revision < u64::MAX - 1,
    ensures
        doc.type_text(text).follows(doc),
        doc.input(composing, target, text).follows(doc),
        doc.compose(composing, target, text, selected_utf16).follows(doc),
{
    let cleared = doc.begin_edit().delete_selection();
    later_states_follow(doc, cleared, doc.type_text(text));
}

/// A key that edits the document or moves its cursor gives a later state of the document.
proof fn edit_keys_move_on(doc: DocumentView, key: EditorKey, shift: bool)
    requires
        doc.revision < u64::MAX - 1,
    ensures
        doc.keyed(key, shift).follows(doc),
{
    typing_moves_on(doc, false, Range { start: 0, end: 0 }, seq!['\n'], None);
}

/// Going to a match and opening the find panel keep the caches true.
proof fn searching_keeps_the_caches_true(editor: EditorModel, doc: DocumentView, forward: bool)
    requires
        editor.coherent(doc),
    ensures
        editor.select_match(doc).0.coherent(editor.select_match(doc).1),
        editor.jump(doc, forward).0.coherent(editor.jump(doc, forward).1),
        editor.activate(doc).0.coherent(editor.activate(doc).1),
        editor.select_match(doc).1.follows(doc),
        editor.jump(doc, forward).1.follows(doc),
        editor.activate(doc).1.follows(doc),
{
}

/// A key in the find panel keeps the caches true.
proof fn search_keys_keep_the_caches_true(
    editor: EditorModel,
    doc: DocumentView,
    key: EditorKey,
    cmd: bool,
    shift: bool,
    key_char: Option<Seq<char>>,
)
    requires
        editor.coherent(doc),
    ensures
        editor.search_keyed(doc, key, cmd, shift, key_char).0.coherent(
            editor.search_keyed(doc, key, cmd, shift, key_char).1,
        ),
        editor.search_keyed(doc, key, cmd, shift, key_char).1.follows(doc),
{
    searching_keeps_the_caches_true(editor, doc, !shift);
    let shorter = editor.with_query(
        if editor.search_query.len() == 0 {
            editor.search_query
        } else {
            editor.search_query.drop_last()
        },
    );
    let longer = editor.with_query(editor.search_query + key_char->0);
    searching_keeps_the_caches_true(shorter, doc, shift);
    searching_keeps_the_caches_true(longer, doc, shift);
}

/// A key keeps the caches of the editor true of the document that it leaves.
pub proof fn keys_keep_the_caches_true(
    editor: EditorModel,
    doc: DocumentView,
    key: EditorKey,
    cmd: bool,
    shift: bool,
    key_char: Option<Seq<char>>,
)
    requires
        editor.coherent(doc),
        doc.revision < u64::MAX - 1,
    ensures
        editor.keyed(doc, key, cmd, shift, key_char).0.coherent(
            editor.keyed(doc, key, cmd, shift, key_char).1,
        ),
        editor.keyed(doc, key, cmd, shift, key_char).1.follows(doc),
{
    if cmd && key == EditorKey::Find {
        searching_keeps_the_caches_true(editor, doc, !shift);
    } else if cmd && key == EditorKey::FindAgain {
        searching_keeps_the_caches_true(editor, doc, !shift);
    } else if editor.search_active {
        search_keys_keep_the_caches_true(editor, doc, key, cmd, shift, key_char);
    } else {
        edit_keys_move_on(doc, key, shift);
        editor_cache_outlives_changes(editor, doc, doc.keyed(key, shift));
    }
}

} // verus!
