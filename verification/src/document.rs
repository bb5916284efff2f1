//! The document that is edited: its text, cursor and selection, and its undo history.
use crate::rope::{
    rope_byte_to_char, rope_char_to_byte, rope_chunks, rope_clone, rope_from_str, rope_hash,
    rope_insert, rope_len_bytes, rope_len_chars, rope_new, rope_remove, rope_slice, rope_to_string,
};
use crate::rope::{byte_offset, char_at_byte, rope_chars, text_hash};
use crate::span::{
    change_is_framed, frames, merged_span_frames, put_in_span, redo_spans, span_view,
    take_out_span, undo_spans,
};
use crate::span::{merge, Span, SpanView};
use crate::text::{count_words, encode_utf8_of_concat, word_count};
use crate::undo::{
    capped, change_views, clamped, copy_changes, copy_range, cut, no_history, redo_changes, spliced,
    undo_changes,
};
use crate::undo::{
    ChangeView, EditChange, EditOperation, HistoryView, OperationView, UndoHistory,
};
use ropey::Rope;
use std::ops::Range;
use vstd::prelude::*;
use vstd::string::*;
use vstd::utf8::encode_utf8;

verus! {

/// The range of the text that the latest change replaced, and how far the new text reaches.
#[derive(Clone, Copy, Debug)]
pub struct EditDelta {
    pub start_char: usize,
    pub old_end_char: usize,
    pub new_end_char: usize,
    pub start_byte: usize,
    pub old_end_byte: usize,
    pub new_end_byte: usize,
}

pub struct DocumentState {
    /// Where the document is stored, if it is.
    pub path: Option<String>,
    pub rope: Rope,
    pub dirty: bool,
    pub revision: u64,
    pub last_saved_hash: u64,
    pub cursor: usize,
    /// The selected range of character indices.
    pub selection: Option<Range<usize>>,
    /// The starting point for shift and drag selections.
    pub selection_anchor: Option<usize>,
    /// The word count, unless it needs to be computed.
    pub word_count_cache: Option<usize>,
    /// Undo and redo history.
    pub undo_history: UndoHistory,
    /// The edit that is being recorded.
    pub pending_edit: Option<PendingEdit>,
    /// The most recent edit delta, updated on each change of the text.
    pub last_edit: Option<EditDelta>,
}

/// What is recorded of an edit until it is committed.
pub struct PendingEdit {
    pub changes: Vec<EditChange>,
    pub old_cursor: usize,
    pub old_selection: Option<Range<usize>>,
}

/// A recorded edit, over the characters of its changes.
#[verifier::ext_equal]
pub struct PendingView {
    pub changes: Seq<ChangeView>,
    pub old_cursor: usize,
    pub old_selection: Option<Range<usize>>,
}

impl View for PendingEdit {
    type V = PendingView;

    open spec fn view(&self) -> PendingView {
        PendingView {
            changes: change_views(self.changes@),
            old_cursor: self.old_cursor,
            old_selection: self.old_selection,
        }
    }
}

/// A document, over the characters of its text.
#[verifier::ext_equal]
pub struct DocumentView {
    pub path: Option<Seq<char>>,
    pub text: Seq<char>,
    pub dirty: bool,
    pub revision: u64,
    pub last_saved_hash: u64,
    pub cursor: usize,
    pub selection: Option<Range<usize>>,
    pub selection_anchor: Option<usize>,
    pub word_count: Option<usize>,
    pub history: HistoryView,
    pub pending: Option<PendingView>,
    pub last_edit: Option<EditDelta>,
}

/// The characters of an optional string.
pub open spec fn string_view(text: Option<String>) -> Option<Seq<char>> {
    match text {
        Some(text) => Some(text@),
        None => None,
    }
}

impl View for DocumentState {
    type V = DocumentView;

    open spec fn view(&self) -> DocumentView {
        DocumentView {
            path: string_view(self.path),
            text: rope_chars(self.rope),
            dirty: self.dirty,
            revision: self.revision,
            last_saved_hash: self.last_saved_hash,
            cursor: self.cursor,
            selection: self.selection,
            selection_anchor: self.selection_anchor,
            word_count: self.word_count_cache,
            history: self.undo_history@,
            pending: match self.pending_edit {
                Some(pending) => Some(pending@),
                None => None,
            },
            last_edit: self.last_edit,
        }
    }
}

impl Clone for PendingEdit {
    fn clone(&self) -> (copy: Self)
        ensures
            copy@ == self@,
    {
        PendingEdit {
            changes: copy_changes(&self.changes),
            old_cursor: self.old_cursor,
            old_selection: copy_range(&self.old_selection),
        }
    }
}

impl Clone for DocumentState {
    fn clone(&self) -> (copy: Self)
        ensures
            copy@ == self@,
    {
        DocumentState {
            path: match &self.path {
                Some(path) => Some(path.clone()),
                None => None,
            },
            rope: rope_clone(&self.rope),
            dirty: self.dirty,
            revision: self.revision,
            last_saved_hash: self.last_saved_hash,
            cursor: self.cursor,
            selection: copy_range(&self.selection),
            selection_anchor: self.selection_anchor,
            word_count_cache: self.word_count_cache,
            undo_history: self.undo_history.clone(),
            pending_edit: match &self.pending_edit {
                Some(pending) => Some(pending.clone()),
                None => None,
            },
            last_edit: self.last_edit,
        }
    }
}

/// The revision behind another; the last one is followed by zero.
pub open spec fn next_revision(revision: u64) -> u64 {
    if revision == u64::MAX {
        0
    } else {
        (revision + 1) as u64
    }
}

/// The end of a selection away from the cursor.
pub open spec fn far_end(selection: Option<Range<usize>>, cursor: usize) -> Option<usize> {
    match selection {
        Some(range) => Some(
            if cursor <= range.start {
                range.end
            } else {
                range.start
            },
        ),
        None => None,
    }
}

/// The delta of a change from one text to another in a span.
pub open spec fn delta_between(before: Seq<char>, after: Seq<char>, span: SpanView) -> EditDelta {
    EditDelta {
        start_char: span.start as usize,
        old_end_char: span.old_end as usize,
        new_end_char: span.new_end as usize,
        start_byte: byte_offset(before, span.start) as usize,
        old_end_byte: byte_offset(before, span.old_end) as usize,
        new_end_byte: byte_offset(after, span.new_end) as usize,
    }
}

/// The document without text.
pub open spec fn empty_document() -> DocumentView {
    DocumentView {
        path: None,
        text: Seq::empty(),
        dirty: false,
        revision: 0,
        last_saved_hash: 0,
        cursor: 0,
        selection: None,
        selection_anchor: None,
        word_count: Some(0),
        history: no_history(),
        pending: None,
        last_edit: None,
    }
}

impl DocumentView {
    /// The number of characters.
    pub open spec fn len(self) -> int {
        self.text.len() as int
    }

    /// The document with its text replaced.
    pub open spec fn set_text(self, text: Seq<char>) -> Self {
        DocumentView {
            text,
            cursor: text.len() as usize,
            selection: None,
            selection_anchor: None,
            revision: next_revision(self.revision),
            last_edit: Some(
                EditDelta {
                    start_char: 0,
                    old_end_char: self.text.len() as usize,
                    new_end_char: text.len() as usize,
                    start_byte: 0,
                    old_end_byte: encode_utf8(self.text).len() as usize,
                    new_end_byte: encode_utf8(text).len() as usize,
                },
            ),
            word_count: None,
            ..self
        }
    }

    /// The document with nothing selected.
    pub open spec fn clear_selection(self) -> Self {
        DocumentView { selection: None, selection_anchor: None, ..self }
    }

    /// The document with the cursor at the given index, or at the end, and nothing selected.
    pub open spec fn set_cursor(self, index: int) -> Self {
        DocumentView {
            cursor: clamped(index, self.len()) as usize,
            selection: None,
            selection_anchor: None,
            ..self
        }
    }

    /// The document with what lies between the two indices selected and the cursor at `head`.
    pub open spec fn set_selection(self, anchor: int, head: int) -> Self {
        let anchor = clamped(anchor, self.len());
        let head = clamped(head, self.len());
        DocumentView {
            selection: if anchor == head {
                None
            } else if anchor < head {
                Some(Range { start: anchor as usize, end: head as usize })
            } else {
                Some(Range { start: head as usize, end: anchor as usize })
            },
            cursor: head as usize,
            selection_anchor: Some(anchor as usize),
            ..self
        }
    }

    /// The document with all of its text selected and the cursor at the end.
    pub open spec fn select_all(self) -> Self {
        DocumentView {
            selection: if self.len() == 0 {
                None
            } else {
                Some(Range { start: 0, end: self.text.len() as usize })
            },
            selection_anchor: Some(0),
            cursor: self.text.len() as usize,
            ..self
        }
    }

    /// The recorded edit with one more change.
    pub open spec fn recording(self, change: ChangeView) -> Option<PendingView> {
        match self.pending {
            Some(pending) => Some(
                PendingView { changes: pending.changes.push(change), ..pending },
            ),
            None => None,
        }
    }

    /// The document with characters put in at an index, or at the end.
    pub open spec fn insert(self, index: int, text: Seq<char>) -> Self {
        let at = clamped(index, self.len());
        let start_byte = byte_offset(self.text, at);
        DocumentView {
            text: spliced(self.text, at, text),
            pending: if text.len() > 0 {
                self.recording(ChangeView::Insert { at: at as usize, text })
            } else {
                self.pending
            },
            revision: next_revision(self.revision),
            dirty: true,
            last_edit: Some(
                EditDelta {
                    start_char: at as usize,
                    old_end_char: at as usize,
                    new_end_char: capped(at + text.len()),
                    start_byte: start_byte as usize,
                    old_end_byte: start_byte as usize,
                    new_end_byte: capped(
                        start_byte + encode_utf8(text).len(),
                    ),
                },
            ),
            selection: None,
            selection_anchor: None,
            word_count: None,
            ..self
        }
    }

    /// The document without a range of characters. A range that is empty or reaches behind
    /// the end is left alone.
    pub open spec fn delete_range(self, start: int, end: int) -> Self {
        if start >= end || end > self.len() {
            self
        } else {
            let text = cut(self.text, start, end);
            let start_byte = byte_offset(self.text, start);
            DocumentView {
                text,
                pending: self.recording(
                    ChangeView::Delete {
                        at: start as usize,
                        text: self.text.subrange(start, end),
                    },
                ),
                revision: next_revision(self.revision),
                dirty: true,
                last_edit: Some(
                    EditDelta {
                        start_char: start as usize,
                        old_end_char: end as usize,
                        new_end_char: start as usize,
                        start_byte: start_byte as usize,
                        old_end_byte: byte_offset(self.text, end) as usize,
                        new_end_byte: start_byte as usize,
                    },
                ),
                cursor: clamped(self.cursor as int, text.len() as int) as usize,
                selection: None,
                selection_anchor: None,
                word_count: None,
                ..self
            }
        }
    }

    /// The document without the selected characters and with the cursor where they were.
    pub open spec fn delete_selection(self) -> Self {
        match self.selection {
            Some(range) => self.delete_range(range.start as int, range.end as int).set_cursor(
                range.start as int,
            ),
            None => self,
        }
    }

    /// The document with its text marked as the one that is stored.
    pub open spec fn save_snapshot(self) -> Self {
        DocumentView {
            last_saved_hash: text_hash(self.text),
            dirty: false,
            ..self
        }
    }

    /// The document with an edit begun.
    pub open spec fn begin_edit(self) -> Self {
        DocumentView {
            pending: Some(
                PendingView {
                    changes: Seq::empty(),
                    old_cursor: self.cursor,
                    old_selection: self.selection,
                },
            ),
            ..self
        }
    }

    /// The edit that the recorded changes are.
    pub open spec fn operation(self, pending: PendingView) -> OperationView {
        OperationView {
            changes: pending.changes,
            old_cursor: pending.old_cursor,
            new_cursor: self.cursor,
            old_selection: pending.old_selection,
            new_selection: self.selection,
        }
    }

    /// The document with the recorded edit, if it changed anything, as the last one of the
    /// history.
    pub open spec fn commit_edit(self) -> Self {
        DocumentView {
            pending: None,
            history: match self.pending {
                Some(pending) => if pending.changes.len() == 0 {
                    self.history
                } else {
                    HistoryView {
                        undo: self.history.undo.push(self.operation(pending)),
                        redo: Seq::empty(),
                    }
                },
                None => self.history,
            },
            ..self
        }
    }

    /// The document with a text, a cursor and a selection that come from the history, where the
    /// text differs in a span.
    pub open spec fn restored(
        self,
        text: Seq<char>,
        span: Option<SpanView>,
        cursor: usize,
        selection: Option<Range<usize>>,
        history: HistoryView,
    ) -> Self {
        let cursor = clamped(cursor as int, text.len() as int) as usize;
        DocumentView {
            text,
            cursor,
            selection,
            selection_anchor: far_end(selection, cursor),
            revision: next_revision(self.revision),
            word_count: None,
            dirty: text_hash(text) != self.last_saved_hash,
            last_edit: match span {
                Some(span) => Some(delta_between(self.text, text, span)),
                None => self.last_edit,
            },
            history,
            ..self
        }
    }

    /// The document with the last edit of the history taken back.
    pub open spec fn undo(self) -> Self {
        if self.history.undo.len() == 0 {
            self
        } else {
            let operation = self.history.undo.last();
            self.restored(
                undo_changes(self.text, operation.changes),
                undo_spans(self.text, operation.changes, None),
                operation.old_cursor,
                operation.old_selection,
                HistoryView {
                    undo: self.history.undo.drop_last(),
                    redo: self.history.redo.push(operation),
                },
            )
        }
    }

    /// The document with the edit that was taken back last made again.
    pub open spec fn redo(self) -> Self {
        if self.history.redo.len() == 0 {
            self
        } else {
            let operation = self.history.redo.last();
            self.restored(
                redo_changes(self.text, operation.changes),
                redo_spans(self.text, operation.changes),
                operation.new_cursor,
                operation.new_selection,
                HistoryView {
                    undo: self.history.undo.push(operation),
                    redo: self.history.redo.drop_last(),
                },
            )
        }
    }

    /// The document without a history.
    pub open spec fn clear_undo_history(self) -> Self {
        DocumentView { history: no_history(), pending: None, ..self }
    }
}

/// The byte offset of a character, or that of the end behind the last one.
pub open spec fn byte_of(text: Seq<char>, index: int) -> int {
    byte_offset(text, clamped(index, text.len() as int))
}

/// The index of the character that a byte belongs to, or the number of characters behind the
/// last one.
pub open spec fn char_of(text: Seq<char>, byte: int) -> int {
    char_at_byte(text, clamped(byte, encode_utf8(text).len() as int))
}

/// The range of bytes that a range of characters takes up.
pub open spec fn byte_range(text: Seq<char>, range: Range<usize>) -> Range<usize> {
    Range {
        start: byte_of(text, range.start as int) as usize,
        end: byte_of(text, range.end as int) as usize,
    }
}

/// The smaller of the two.
fn min(a: usize, b: usize) -> (least: usize)
    ensures
        least == clamped(a as int, b as int),
{
    if a <= b {
        a
    } else {
        b
    }
}

impl DocumentState {
    pub fn new_empty() -> (document: Self)
        ensures
            document@ == empty_document(),
    {
        DocumentState {
            path: None,
            rope: rope_new(),
            dirty: false,
            revision: 0,
            last_saved_hash: 0,
            cursor: 0,
            selection: None,
            selection_anchor: None,
            word_count_cache: Some(0),
            undo_history: UndoHistory::default(),
            pending_edit: None,
            last_edit: None,
        }
    }

    pub fn set_text(&mut self, text: &str)
        ensures
            final(self)@ == old(self)@.set_text(text@),
    {
        let old_chars = rope_len_chars(&self.rope);
        let old_bytes = rope_len_bytes(&self.rope);
        self.rope = rope_from_str(text);
        let new_chars = rope_len_chars(&self.rope);
        let new_bytes = rope_len_bytes(&self.rope);
        self.cursor = new_chars;
        self.clear_selection();
        self.bump_revision();
        self.last_edit = Some(
            EditDelta {
                start_char: 0,
                old_end_char: old_chars,
                new_end_char: new_chars,
                start_byte: 0,
                old_end_byte: old_bytes,
                new_end_byte: new_bytes,
            },
        );
        // The dirty state is left to save_snapshot, and the word count is computed lazily.
        self.word_count_cache = None;
    }

    pub fn len_chars(&self) -> (len: usize)
        ensures
            len == self@.text.len(),
    {
        rope_len_chars(&self.rope)
    }

    pub fn len_bytes(&self) -> (len: usize)
        ensures
            len == encode_utf8(self@.text).len(),
    {
        rope_len_bytes(&self.rope)
    }

    pub fn set_cursor(&mut self, idx: usize)
        ensures
            final(self)@ == old(self)@.set_cursor(idx as int),
    {
        self.cursor = min(idx, self.len_chars());
        self.clear_selection();
    }

    pub fn set_selection(&mut self, anchor: usize, head: usize)
        ensures
            final(self)@ == old(self)@.set_selection(anchor as int, head as int),
    {
        let len = self.len_chars();
        let anchor = min(anchor, len);
        let head = min(head, len);
        let (start, end) = if anchor <= head {
            (anchor, head)
        } else {
            (head, anchor)
        };
        self.selection = if start == end {
            None
        } else {
            Some(start..end)
        };
        self.cursor = head;
        self.selection_anchor = Some(anchor);
    }

    pub fn clear_selection(&mut self)
        ensures
            final(self)@ == old(self)@.clear_selection(),
    {
        self.selection = None;
        self.selection_anchor = None;
    }

    pub fn selection_range(&self) -> (range: Option<Range<usize>>)
        ensures
            range == self@.selection,
    {
        copy_range(&self.selection)
    }

    pub fn selection_bytes(&self) -> (bytes: Option<Range<usize>>)
        ensures
            bytes == (match self@.selection {
                Some(range) => Some(byte_range(self@.text, range)),
                None => None,
            }),
    {
        match &self.selection {
            Some(range) => Some(self.char_range_to_bytes(range.start..range.end)),
            None => None,
        }
    }

    pub fn delete_selection(&mut self) -> (cursor: Option<usize>)
        ensures
            final(self)@ == old(self)@.delete_selection(),
            cursor == (if old(self)@.selection is Some {
                Some(final(self)@.cursor)
            } else {
                None
            }),
    {
        match self.selection_range() {
            Some(range) => {
                let start = range.start;
                self.delete_range(range);
                let new_cursor = min(start, self.len_chars());
                self.cursor = new_cursor;
                self.clear_selection();
                Some(new_cursor)
            },
            None => None,
        }
    }

    pub fn insert(&mut self, char_idx: usize, text: &str)
        ensures
            final(self)@ == old(self)@.insert(char_idx as int, text@),
    {
        let clamped = min(char_idx, rope_len_chars(&self.rope));
        let start_byte = rope_char_to_byte(&self.rope, clamped);
        rope_insert(&mut self.rope, clamped, text);
        if !text.is_empty() {
            self.record(EditChange::Insert { at: clamped, text: text.to_owned() });
        }
        let new_end_char = clamped.saturating_add(text.unicode_len());
        let new_end_byte = start_byte.saturating_add(text.as_bytes().len());
        self.bump_revision();
        self.dirty = true;
        self.last_edit = Some(
            EditDelta {
                start_char: clamped,
                old_end_char: clamped,
                new_end_char,
                start_byte,
                old_end_byte: start_byte,
                new_end_byte,
            },
        );
        self.clear_selection();
        self.word_count_cache = None;
    }

    pub fn delete_range(&mut self, range: Range<usize>)
        ensures
            final(self)@ == old(self)@.delete_range(range.start as int, range.end as int),
    {
        if range.start >= range.end || range.end > rope_len_chars(&self.rope) {
            return ;
        }
        let start_char = range.start;
        let old_end_char = range.end;
        let start_byte = rope_char_to_byte(&self.rope, start_char);
        let old_end_byte = rope_char_to_byte(&self.rope, old_end_char);
        let deleted_text = rope_slice(&self.rope, start_char, old_end_char);
        rope_remove(&mut self.rope, start_char, old_end_char);
        self.record(EditChange::Delete { at: start_char, text: deleted_text });
        self.bump_revision();
        self.dirty = true;
        self.last_edit = Some(
            EditDelta {
                start_char,
                old_end_char,
                new_end_char: start_char,
                start_byte,
                old_end_byte,
                new_end_byte: start_byte,
            },
        );
        self.cursor = min(self.cursor, rope_len_chars(&self.rope));
        self.clear_selection();
        self.word_count_cache = None;
    }

    pub fn select_all(&mut self)
        ensures
            final(self)@ == old(self)@.select_all(),
    {
        let len = self.len_chars();
        self.selection = if len == 0 {
            None
        } else {
            Some(0..len)
        };
        self.selection_anchor = Some(0);
        self.cursor = len;
    }

    pub fn char_to_byte(&self, char_idx: usize) -> (byte: usize)
        ensures
            byte == byte_of(self@.text, char_idx as int),
    {
        rope_char_to_byte(&self.rope, min(char_idx, self.len_chars()))
    }

    pub fn byte_to_char(&self, byte_idx: usize) -> (index: usize)
        ensures
            index == char_of(self@.text, byte_idx as int),
    {
        rope_byte_to_char(&self.rope, min(byte_idx, self.len_bytes()))
    }

    pub fn char_range_to_bytes(&self, range: Range<usize>) -> (bytes: Range<usize>)
        ensures
            bytes == byte_range(self@.text, range),
    {
        let start = self.char_to_byte(range.start);
        let end = self.char_to_byte(range.end);
        start..end
    }

    pub fn slice_chars(&self, range: Range<usize>) -> (text: String)
        requires
            range.start <= range.end <= self@.text.len(),
        ensures
            text@ == self@.text.subrange(range.start as int, range.end as int),
    {
        rope_slice(&self.rope, range.start, range.end)
    }

    pub fn text(&self) -> (text: String)
        ensures
            text@ == self@.text,
    {
        rope_to_string(&self.rope)
    }

    pub fn save_snapshot(&mut self)
        ensures
            final(self)@ == old(self)@.save_snapshot(),
    {
        self.last_saved_hash = self.current_hash();
        self.dirty = false;
    }

    fn current_hash(&self) -> (hash: u64)
        ensures
            hash == text_hash(self@.text),
    {
        rope_hash(&self.rope)
    }

    fn bump_revision(&mut self)
        ensures
            final(self)@ == (DocumentView {
                revision: next_revision(old(self)@.revision),
                ..old(self)@
            }),
    {
        self.revision = self.revision.wrapping_add(1);
    }

    /// Adds a change to the edit that is being recorded, if there is one.
    fn record(&mut self, change: EditChange)
        ensures
            final(self)@ == (DocumentView {
                pending: old(self)@.recording(change@),
                ..old(self)@
            }),
    {
        match self.pending_edit.take() {
            Some(pending) => {
                let mut pending = pending;
                let ghost before = pending.changes@;
                pending.changes.push(change);
                proof {
                    assert(change_views(pending.changes@)
                        =~= change_views(before).push(change@));
                }
                self.pending_edit = Some(pending);
            },
            None => {},
        }
    }

    /// Get word count, computing it if not cached
    pub fn get_word_count(&mut self) -> (count: usize)
        ensures
            final(self)@ == (DocumentView { word_count: Some(count), ..old(self)@ }),
            count == (match old(self)@.word_count {
                Some(cached) => cached as nat,
                None => word_count(old(self)@.text),
            }),
            old(self)@.in_bounds() ==> count == word_count(old(self)@.text),
    {
        match self.word_count_cache {
            Some(count) => count,
            None => {
                // Count words by iterating through rope chunks to avoid full string allocation
                let count = if self.len_chars() == 0 {
                    0
                } else {
                    count_words(&rope_chunks(&self.rope))
                };
                self.word_count_cache = Some(count);
                count
            },
        }
    }

    /// Begin recording an edit operation - call before making changes
    pub fn begin_edit(&mut self)
        ensures
            final(self)@ == old(self)@.begin_edit(),
    {
        let pending = PendingEdit {
            changes: Vec::new(),
            old_cursor: self.cursor,
            old_selection: copy_range(&self.selection),
        };
        proof {
            assert(change_views(pending.changes@)
                =~= Seq::<ChangeView>::empty());
        }
        self.pending_edit = Some(pending);
    }

    /// Commit the pending edit to history - call after making changes
    pub fn commit_edit(&mut self)
        ensures
            final(self)@ == old(self)@.commit_edit(),
    {
        match self.pending_edit.take() {
            Some(pending) => {
                if pending.changes.is_empty() {
                    return ;
                }
                let operation = EditOperation {
                    changes: pending.changes,
                    old_cursor: pending.old_cursor,
                    new_cursor: self.cursor,
                    old_selection: pending.old_selection,
                    new_selection: copy_range(&self.selection),
                };
                self.undo_history.push(operation);
            },
            None => {},
        }
    }

    /// Takes characters out that were inserted, where the text reaches that far. Returns the
    /// span of them.
    fn take_out(&mut self, at: usize, inserted: &str) -> (span: Option<Span>)
        ensures
            final(self)@ == (DocumentView {
                text: crate::undo::take_out(old(self)@.text, at, inserted@),
                ..old(self)@
            }),
            span_view(span) == take_out_span(old(self)@.text, at, inserted@),
            final(self)@.text.len() <= usize::MAX,
    {
        let len = rope_len_chars(&self.rope);
        let end = at.saturating_add(inserted.unicode_len());
        if at < end && end <= len {
            rope_remove(&mut self.rope, at, end);
            Some(Span { start: at, old_end: end, new_end: at })
        } else {
            None
        }
    }

    /// Puts characters in, as far as the text reaches. Returns the span of them.
    fn put_in(&mut self, at: usize, removed: &str) -> (span: Option<Span>)
        ensures
            final(self)@ == (DocumentView {
                text: crate::undo::put_in(old(self)@.text, at, removed@),
                ..old(self)@
            }),
            span_view(span) == put_in_span(old(self)@.text, at, removed@),
            final(self)@.text.len() <= usize::MAX,
    {
        let old_len = rope_len_chars(&self.rope);
        let start = min(at, old_len);
        rope_insert(&mut self.rope, start, removed);
        let inserted = rope_len_chars(&self.rope) - old_len;
        Some(Span { start, old_end: start, new_end: start + inserted })
    }

    /// The delta of a change in a span, from a text of the given number of bytes.
    fn delta_from(&self, span: Span, old_bytes: usize, Ghost(before): Ghost<Seq<char>>) -> (delta:
        EditDelta)
        requires
            frames(before, self@.text, Some(span@)),
            old_bytes == encode_utf8(before).len(),
        ensures
            delta == delta_between(before, self@.text, span@),
    {
        let ghost after = self@.text;
        let new_bytes = rope_len_bytes(&self.rope);
        let start_byte = rope_char_to_byte(&self.rope, span.start);
        let new_end_byte = rope_char_to_byte(&self.rope, span.new_end);
        proof {
            let old_end = span.old_end as int;
            let new_end = span.new_end as int;
            assert(before.take(old_end) + before.skip(old_end) =~= before);
            assert(after.take(new_end) + after.skip(new_end) =~= after);
            encode_utf8_of_concat(before.take(old_end), before.skip(old_end));
            encode_utf8_of_concat(after.take(new_end), after.skip(new_end));
        }
        EditDelta {
            start_char: span.start,
            old_end_char: span.old_end,
            new_end_char: span.new_end,
            start_byte,
            old_end_byte: old_bytes - (new_bytes - new_end_byte),
            new_end_byte,
        }
    }

    /// Takes note of a change in a span, if there was one.
    fn note_change(&mut self, span: Option<Span>, old_bytes: usize, Ghost(before): Ghost<Seq<char>>)
        requires
            frames(before, old(self)@.text, span_view(span)),
            old_bytes == encode_utf8(before).len(),
        ensures
            final(self)@ == (DocumentView {
                last_edit: match span_view(span) {
                    Some(span) => Some(delta_between(before, old(self)@.text, span)),
                    None => old(self)@.last_edit,
                },
                ..old(self)@
            }),
    {
        match span {
            Some(span) => {
                self.last_edit = Some(self.delta_from(span, old_bytes, Ghost(before)));
            },
            None => {},
        }
    }

    /// Takes over a cursor and a selection from the history, for the text that is there.
    fn restore(&mut self, cursor: usize, selection: Option<Range<usize>>)
        ensures
            final(self)@ == old(self)@.restored(
                old(self)@.text,
                None,
                cursor,
                selection,
                old(self)@.history,
            ),
    {
        self.cursor = min(cursor, rope_len_chars(&self.rope));
        self.selection_anchor = match &selection {
            Some(range) => Some(
                if self.cursor <= range.start {
                    range.end
                } else {
                    range.start
                },
            ),
            None => None,
        };
        self.selection = selection;
        self.bump_revision();
        self.word_count_cache = None;
        // Dirty if the current content differs from the saved one.
        self.dirty = self.current_hash() != self.last_saved_hash;
    }

    /// Undo the last edit operation
    pub fn undo(&mut self) -> (undone: bool)
        ensures
            final(self)@ == old(self)@.undo(),
            undone == (old(self)@.history.undo.len() > 0),
    {
        match self.undo_history.undo() {
            Some(operation) => {
                let ghost changes = operation@.changes;
                let ghost start = self@;
                let old_len = rope_len_chars(&self.rope);
                let old_bytes = rope_len_bytes(&self.rope);
                let mut span: Option<Span> = None;
                let mut left: usize = operation.changes.len();
                proof {
                    assert(changes.take(left as int) =~= changes);
                }
                while left > 0
                    invariant
                        left <= operation.changes.len(),
                        changes == change_views(operation.changes@),
                        old_len == start.text.len(),
                        self@ == (DocumentView { text: self@.text, ..start }),
                        undo_changes(self@.text, changes.take(left as int)) == undo_changes(
                            start.text,
                            changes,
                        ),
                        frames(start.text, self@.text, span_view(span)),
                        undo_spans(self@.text, changes.take(left as int), span_view(span))
                            == undo_spans(start.text, changes, None),
                    decreases left,
                {
                    left = left - 1;
                    let ghost before = self@.text;
                    proof {
                        assert(changes.take(left + 1).drop_last() =~= changes.take(left as int));
                        assert(changes.take(left + 1).last() == operation.changes@[left as int]@);
                    }
                    let next = match &operation.changes[left] {
                        EditChange::Insert { at, text } => self.take_out(*at, text.as_str()),
                        EditChange::Delete { at, text } => self.put_in(*at, text.as_str()),
                    };
                    proof {
                        let change = operation.changes@[left as int]@;
                        change_is_framed(before, change);
                        merged_span_frames(
                            start.text,
                            before,
                            self@.text,
                            span_view(span),
                            span_view(next),
                        );
                    }
                    span = merge(span, next);
                }
                self.note_change(span, old_bytes, Ghost(start.text));
                self.restore(operation.old_cursor, operation.old_selection);
                true
            },
            None => false,
        }
    }

    /// Redo the last undone operation
    pub fn redo(&mut self) -> (redone: bool)
        ensures
            final(self)@ == old(self)@.redo(),
            redone == (old(self)@.history.redo.len() > 0),
    {
        match self.undo_history.redo() {
            Some(operation) => {
                let ghost changes = operation@.changes;
                let ghost start = self@;
                let old_len = rope_len_chars(&self.rope);
                let old_bytes = rope_len_bytes(&self.rope);
                let mut span: Option<Span> = None;
                let mut done: usize = 0;
                while done < operation.changes.len()
                    invariant
                        done <= operation.changes.len(),
                        changes == change_views(operation.changes@),
                        old_len == start.text.len(),
                        self@ == (DocumentView {
                            text: redo_changes(start.text, changes.take(done as int)),
                            ..start
                        }),
                        frames(start.text, self@.text, span_view(span)),
                        span_view(span) == redo_spans(start.text, changes.take(done as int)),
                    decreases operation.changes.len() - done,
                {
                    proof {
                        assert(changes.take(done + 1).drop_last() =~= changes.take(done as int));
                        assert(changes.take(done + 1).last() == operation.changes@[done as int]@);
                    }
                    let ghost before = self@.text;
                    let next = match &operation.changes[done] {
                        EditChange::Insert { at, text } => self.put_in(*at, text.as_str()),
                        EditChange::Delete { at, text } => self.take_out(*at, text.as_str()),
                    };
                    proof {
                        let change = operation.changes@[done as int]@;
                        change_is_framed(before, change);
                        merged_span_frames(
                            start.text,
                            before,
                            self@.text,
                            span_view(span),
                            span_view(next),
                        );
                    }
                    span = merge(span, next);
                    done = done + 1;
                }
                self.note_change(span, old_bytes, Ghost(start.text));
                proof {
                    assert(changes.take(done as int) =~= changes);
                }
                self.restore(operation.new_cursor, operation.new_selection);
                true
            },
            None => false,
        }
    }

    /// Clear undo history (called when opening a new file)
    pub fn clear_undo_history(&mut self)
        ensures
            final(self)@ == old(self)@.clear_undo_history(),
    {
        self.undo_history.clear();
        self.pending_edit = None;
    }

    /// Check if undo is available
    pub fn can_undo(&self) -> (can: bool)
        ensures
            can == (self@.history.undo.len() > 0),
    {
        self.undo_history.can_undo()
    }

    /// Check if redo is available
    pub fn can_redo(&self) -> (can: bool)
        ensures
            can == (self@.history.redo.len() > 0),
    {
        self.undo_history.can_redo()
    }
}

} // verus!
