//! What holds of a document over more than one operation.
use crate::document::{byte_of, char_of, delta_between, empty_document};
use crate::document::{DocumentView, EditDelta};
use crate::rope::{byte_offset, char_at_byte_from};
use crate::span::{
    frames, redo_spans, redone_changes_are_framed, undo_spans, undone_changes_are_framed,
};
use crate::span::SpanView;
use crate::text::{encode_utf8_of_concat, encode_utf8_of_push, word_count, word_count_bounded};
use crate::undo::{
    change_led_to, changes_led_to, clamped, cut, redo_changes, redo_inverts_undo, spliced,
    undo_change, undo_changes,
};
use crate::undo::{ChangeView, OperationView};
use std::ops::Range;
use vstd::prelude::*;
use vstd::utf8::{
    encode_scalar, encode_utf8, encode_utf8_first_scalar, encode_utf8_valid_utf8, is_char_boundary,
    pop_first_scalar,
};

verus! {

/// A selection is a range of characters, and not an empty one.
pub open spec fn selects(selection: Option<Range<usize>>, text: Seq<char>) -> bool {
    selection matches Some(range) ==> range.start < range.end <= text.len()
}

/// The text could be the outcome of the edit.
pub open spec fn operation_led_to(text: Seq<char>, operation: OperationView) -> bool {
    &&& changes_led_to(text, operation.changes)
    &&& selects(operation.new_selection, text)
    &&& selects(operation.old_selection, undo_changes(text, operation.changes))
    &&& undo_changes(text, operation.changes).len() <= usize::MAX
}

/// The text is the outcome of the edits, one after the other.
pub open spec fn operations_led_to(text: Seq<char>, operations: Seq<OperationView>) -> bool
    decreases operations.len(),
{
    operations.len() > 0 ==> {
        &&& operation_led_to(text, operations.last())
        &&& operations_led_to(
            undo_changes(text, operations.last().changes),
            operations.drop_last(),
        )
    }
}

/// The edits were taken back from the text, the first one first.
pub open spec fn operations_lead_from(text: Seq<char>, operations: Seq<OperationView>) -> bool
    decreases operations.len(),
{
    operations.len() > 0 ==> {
        let after = redo_changes(text, operations.last().changes);
        &&& operation_led_to(after, operations.last())
        &&& undo_changes(after, operations.last().changes) == text
        &&& operations_lead_from(after, operations.drop_last())
    }
}

impl DocumentView {
    /// Whether a recorded edit has changed anything yet.
    pub open spec fn has_pending_changes(self) -> bool {
        self.pending matches Some(pending) && pending.changes.len() > 0
    }

    /// The text before the edit that is being recorded.
    pub open spec fn committed_text(self) -> Seq<char> {
        match self.pending {
            Some(pending) => undo_changes(self.text, pending.changes),
            None => self.text,
        }
    }

    /// The cursor and the selection lie in the text, and a cached word count is its word count.
    pub open spec fn in_bounds(self) -> bool {
        &&& self.text.len() <= usize::MAX
        &&& self.cursor <= self.text.len()
        &&& selects(self.selection, self.text)
        &&& self.selection_anchor matches Some(anchor) ==> anchor <= self.text.len()
        &&& self.word_count matches Some(count) ==> count == word_count(self.text)
    }

    /// The recorded edit led from the given text to the text that is there.
    pub open spec fn records_from(self, base: Seq<char>) -> bool {
        &&& self.pending matches Some(pending)
        &&& changes_led_to(self.text, pending.changes)
        &&& undo_changes(self.text, pending.changes) == base
        &&& base.len() <= usize::MAX
        &&& selects(pending.old_selection, base)
    }

    /// The document is in bounds, and its text is what the edits of its history lead to.
    pub open spec fn consistent(self) -> bool {
        &&& self.in_bounds()
        &&& self.has_pending_changes() ==> self.records_from(self.committed_text())
        &&& operations_led_to(self.committed_text(), self.history.undo)
        &&& !self.has_pending_changes() ==> operations_lead_from(self.text, self.history.redo)
    }
}

/// A new document is consistent.
pub proof fn new_document_is_consistent()
    ensures
        empty_document().consistent(),
{
}

/// Moving the cursor and the selection, counting words and saving keep a document consistent
/// and leave its text and its history alone.
pub proof fn moving_keeps_consistency(document: DocumentView, first: int, second: int)
    requires
        document.consistent(),
        0 <= first,
        0 <= second,
    ensures
        document.set_cursor(first).consistent(),
        document.set_selection(first, second).consistent(),
        document.clear_selection().consistent(),
        document.select_all().consistent(),
        document.save_snapshot().consistent(),
        (DocumentView {
            word_count: Some(word_count(document.text) as usize),
            ..document
        }).consistent(),
        document.set_cursor(first).text == document.text,
        document.set_selection(first, second).text == document.text,
        document.set_cursor(first).history == document.history,
        document.set_selection(first, second).history == document.history,
{
    word_count_bounded(document.text);
}

/// Moving the cursor and the selection leaves a recorded edit as it is.
pub proof fn moving_keeps_the_recorded_edit(
    document: DocumentView,
    base: Seq<char>,
    first: int,
    second: int,
)
    requires
        document.records_from(base),
    ensures
        document.set_cursor(first).records_from(base),
        document.set_selection(first, second).records_from(base),
{
}

/// Every operation that gives a document another text gives it another revision.
pub proof fn a_changed_text_has_a_new_revision(
    document: DocumentView,
    first: int,
    second: int,
    text: Seq<char>,
)
    ensures
        document.set_text(text).revision != document.revision,
        document.insert(first, text).revision != document.revision,
        document.delete_range(first, second).text != document.text ==> document.delete_range(
            first,
            second,
        ).revision != document.revision,
        document.delete_selection().text != document.text
            ==> document.delete_selection().revision != document.revision,
        document.undo().text != document.text ==> document.undo().revision != document.revision,
        document.redo().text != document.text ==> document.redo().revision != document.revision,
        document.set_cursor(first).text == document.text,
        document.set_selection(first, second).text == document.text,
        document.clear_selection().text == document.text,
        document.select_all().text == document.text,
        document.save_snapshot().text == document.text,
        document.begin_edit().text == document.text,
        document.commit_edit().text == document.text,
        document.clear_undo_history().text == document.text,
{
}

/// A delta says where two texts differ, in characters and in bytes: before its start and behind
/// its end they are the same.
pub open spec fn describes(delta: EditDelta, before: Seq<char>, after: Seq<char>) -> bool {
    let span = SpanView {
        start: delta.start_char as int,
        old_end: delta.old_end_char as int,
        new_end: delta.new_end_char as int,
    };
    &&& frames(before, after, Some(span))
    &&& delta.start_byte == byte_offset(before, span.start)
    &&& delta.old_end_byte == byte_offset(before, span.old_end)
    &&& delta.new_end_byte == byte_offset(after, span.new_end)
}

/// A change was noted: if the text is another one, the latest delta says where.
pub open spec fn is_described(before: DocumentView, after: DocumentView) -> bool {
    after.text != before.text ==> (after.last_edit matches Some(delta) && describes(
        delta,
        before.text,
        after.text,
    ))
}

/// A text fits in memory.
pub open spec fn fits(text: Seq<char>) -> bool {
    encode_utf8(text).len() <= usize::MAX
}

/// A start of a text has no more bytes than the text, and a text no more characters than bytes.
proof fn starts_are_shorter(text: Seq<char>, index: int)
    requires
        0 <= index <= text.len(),
    ensures
        byte_offset(text, index) <= encode_utf8(text).len(),
        index <= byte_offset(text, index),
    decreases index,
{
    assert(text.take(index) + text.skip(index) =~= text);
    encode_utf8_of_concat(text.take(index), text.skip(index));
    if index > 0 {
        starts_are_shorter(text, index - 1);
        byte_offsets_grow(text, index - 1, index);
    }
}

/// The delta of a span that frames a change describes it.
proof fn framed_delta_describes(before: Seq<char>, after: Seq<char>, span: SpanView)
    requires
        frames(before, after, Some(span)),
        fits(before),
        fits(after),
    ensures
        describes(delta_between(before, after, span), before, after),
{
    starts_are_shorter(before, span.start);
    starts_are_shorter(before, span.old_end);
    starts_are_shorter(after, span.new_end);
    starts_are_shorter(before, before.len() as int);
    starts_are_shorter(after, after.len() as int);
    let delta = delta_between(before, after, span);
    assert(SpanView {
        start: delta.start_char as int,
        old_end: delta.old_end_char as int,
        new_end: delta.new_end_char as int,
    } == span);
}

/// Replacing the text notes where it changed.
pub proof fn a_new_text_is_described(document: DocumentView, text: Seq<char>)
    requires
        fits(document.text),
        fits(text),
    ensures
        is_described(document, document.set_text(text)),
{
    let before = document.text;
    let span = SpanView { start: 0, old_end: before.len() as int, new_end: text.len() as int };
    assert(before.take(0) =~= text.take(0));
    assert(before.skip(before.len() as int) =~= text.skip(text.len() as int));
    assert(before.take(before.len() as int) =~= before);
    assert(text.take(text.len() as int) =~= text);
    assert(before.take(0) =~= Seq::<char>::empty());
    framed_delta_describes(before, text, span);
}

/// Inserting and deleting note where the text changed.
pub proof fn edits_are_described(
    document: DocumentView,
    first: int,
    second: int,
    text: Seq<char>,
)
    requires
        0 <= first,
        fits(document.text),
        fits(document.insert(first, text).text),
    ensures
        is_described(document, document.insert(first, text)),
        is_described(document, document.delete_range(first, second)),
{
    let before = document.text;
    let at = clamped(first, document.len());
    let inserted = spliced(before, at, text);
    assert(inserted.take(at) =~= before.take(at));
    assert(inserted.skip(at + text.len()) =~= before.skip(at));
    assert(inserted.take(at + text.len()) =~= before.take(at) + text);
    encode_utf8_of_concat(before.take(at), text);
    starts_are_shorter(inserted, at + text.len());
    starts_are_shorter(inserted, inserted.len() as int);
    framed_delta_describes(
        before,
        inserted,
        SpanView { start: at, old_end: at, new_end: at + text.len() },
    );
    if first < second && second <= document.len() {
        let removed = cut(before, first, second);
        assert(removed.take(first) =~= before.take(first));
        assert(removed.skip(first) =~= before.skip(second));
        assert(before.take(first) + before.skip(first) =~= before);
        assert(before.take(second) + before.skip(second) =~= before);
        encode_utf8_of_concat(before.take(first), before.skip(second));
        encode_utf8_of_concat(before.take(second), before.skip(second));
        byte_offsets_grow(before, first, second);
        framed_delta_describes(
            before,
            removed,
            SpanView { start: first, old_end: second, new_end: first },
        );
    }
}

/// Undo and redo note where they changed the text.
pub proof fn undo_and_redo_are_described(document: DocumentView)
    requires
        fits(document.text),
        fits(document.undo().text),
        fits(document.redo().text),
    ensures
        is_described(document, document.undo()),
        is_described(document, document.redo()),
{
    let text = document.text;
    if document.history.undo.len() > 0 {
        let changes = document.history.undo.last().changes;
        undone_changes_are_framed(text, text, changes, None);
        if let Some(span) = undo_spans(text, changes, None) {
            framed_delta_describes(text, undo_changes(text, changes), span);
        }
    }
    if document.history.redo.len() > 0 {
        let changes = document.history.redo.last().changes;
        redone_changes_are_framed(text, changes);
        if let Some(span) = redo_spans(text, changes) {
            framed_delta_describes(text, redo_changes(text, changes), span);
        }
    }
}

impl DocumentView {
    /// The document is a later state of another: it has a later revision, or the same text.
    pub open spec fn follows(self, before: DocumentView) -> bool {
        ||| before.revision < self.revision
        ||| before.revision == self.revision && before.text == self.text
    }
}

/// Every operation gives a later state of the document, until the revisions are used up.
pub proof fn operations_move_on(
    document: DocumentView,
    first: int,
    second: int,
    text: Seq<char>,
)
    requires
        document.revision < u64::MAX,
    ensures
        document.set_text(text).follows(document),
        document.insert(first, text).follows(document),
        document.delete_range(first, second).follows(document),
        document.delete_selection().follows(document),
        document.undo().follows(document),
        document.redo().follows(document),
        document.set_cursor(first).follows(document),
        document.set_selection(first, second).follows(document),
        document.clear_selection().follows(document),
        document.select_all().follows(document),
        document.save_snapshot().follows(document),
        document.begin_edit().follows(document),
        document.commit_edit().follows(document),
        document.clear_undo_history().follows(document),
{
}

/// A later state of a later state is a later state.
pub proof fn later_states_follow(first: DocumentView, second: DocumentView, third: DocumentView)
    requires
        second.follows(first),
        third.follows(second),
    ensures
        third.follows(first),
{
}

/// A later character starts behind an earlier one.
proof fn byte_offsets_grow(text: Seq<char>, first: int, second: int)
    requires
        0 <= first < second <= text.len(),
    ensures
        byte_offset(text, first) < byte_offset(text, second),
    decreases second - first,
{
    if first < second - 1 {
        byte_offsets_grow(text, first, second - 1);
    }
    assert(text.take(second) =~= text.take(second - 1).push(text[second - 1]));
    encode_utf8_of_push(text.take(second - 1), text[second - 1]);
}

/// The search for the character of a byte passes over those that end before it.
proof fn char_at_byte_passes(text: Seq<char>, byte: int, from: int, index: int)
    requires
        0 <= from <= index <= text.len(),
        byte_offset(text, index) <= byte,
        index < text.len() ==> byte < byte_offset(text, index + 1),
    ensures
        char_at_byte_from(text, byte, from) == index,
    decreases index - from,
{
    if from < index {
        if from + 1 < index {
            byte_offsets_grow(text, from + 1, index);
        }
        char_at_byte_passes(text, byte, from + 1, index);
    }
}

proof fn char_at_byte_bounds(text: Seq<char>, byte: int, from: int)
    requires
        0 <= from <= text.len(),
    ensures
        from <= char_at_byte_from(text, byte, from) <= text.len(),
    decreases text.len() - from,
{
    if from < text.len() {
        char_at_byte_bounds(text, byte, from + 1);
    }
}

/// The character of a byte is one of the text, or its end.
pub proof fn char_of_lies_inside(text: Seq<char>, byte: int)
    ensures
        0 <= char_of(text, byte) <= text.len(),
{
    char_at_byte_bounds(text, clamped(byte, encode_utf8(text).len() as int), 0);
}

/// Going from a character to its byte offset and back gives the character, and every byte of
/// a character belongs to it.
pub proof fn char_to_byte_and_back(text: Seq<char>, index: int, byte: int)
    requires
        0 <= index <= text.len(),
        byte_of(text, index) <= byte,
        index < text.len() ==> byte < byte_of(text, index + 1),
    ensures
        char_of(text, byte_of(text, index)) == index,
        char_of(text, byte) == index,
{
    assert(text.take(text.len() as int) =~= text);
    if index < text.len() {
        byte_offsets_grow(text, index, index + 1);
        if index + 1 < text.len() {
            byte_offsets_grow(text, index + 1, text.len() as int);
        }
    }
    char_at_byte_passes(text, byte_offset(text, index), 0, index);
    char_at_byte_passes(text, clamped(byte, encode_utf8(text).len() as int), 0, index);
}

/// Every character boundary is where a character starts, or the end.
proof fn boundary_is_an_offset(text: Seq<char>, byte: int) -> (index: int)
    requires
        is_char_boundary(encode_utf8(text), byte),
    ensures
        0 <= index <= text.len(),
        byte_offset(text, index) == byte,
    decreases text.len(),
{
    encode_utf8_valid_utf8(text);
    if byte == 0 {
        assert(text.take(0) =~= Seq::<char>::empty());
        0
    } else {
        encode_utf8_first_scalar(text);
        let rest = text.drop_first();
        let width = encode_scalar(text[0] as u32).len() as int;
        assert(pop_first_scalar(encode_utf8(text)) =~= encode_utf8(rest));
        let index = boundary_is_an_offset(rest, byte - width);
        assert(text.take(index + 1).drop_first() =~= rest.take(index));
        assert(text.take(index + 1)[0] == text[0]);
        index + 1
    }
}

/// Going from a character boundary to its character and back gives the boundary.
pub proof fn byte_to_char_and_back(text: Seq<char>, byte: int)
    requires
        is_char_boundary(encode_utf8(text), byte),
    ensures
        0 <= char_of(text, byte) <= text.len(),
        byte_of(text, char_of(text, byte)) == byte,
{
    let index = boundary_is_an_offset(text, byte);
    if index < text.len() {
        byte_offsets_grow(text, index, index + 1);
    }
    char_to_byte_and_back(text, index, byte);
}

/// Characters stand in the order of their bytes.
pub proof fn characters_keep_the_order_of_bytes(text: Seq<char>, first: int, second: int)
    requires
        is_char_boundary(encode_utf8(text), first),
        is_char_boundary(encode_utf8(text), second),
        first < second,
    ensures
        char_of(text, first) < char_of(text, second),
{
    byte_to_char_and_back(text, first);
    byte_to_char_and_back(text, second);
    if char_of(text, second) < char_of(text, first) {
        byte_offsets_grow(text, char_of(text, second), char_of(text, first));
    }
}

/// One more change behind those that led to a text leads to the changed text.
proof fn one_more_change(base: Seq<char>, text: Seq<char>, changes: Seq<ChangeView>, change: ChangeView)
    requires
        changes_led_to(base, changes),
        change_led_to(text, change),
        undo_change(text, change) == base,
    ensures
        changes_led_to(text, changes.push(change)),
        undo_changes(text, changes.push(change)) == undo_changes(base, changes),
{
    assert(changes.push(change).drop_last() =~= changes);
    assert(changes.push(change).last() == change);
}

/// Inserting is a change that led to the new text.
proof fn insert_leads_to(text: Seq<char>, at: int, inserted: Seq<char>)
    requires
        0 <= at <= text.len(),
        text.len() + inserted.len() <= usize::MAX,
    ensures
        change_led_to(
            spliced(text, at, inserted),
            ChangeView::Insert { at: at as usize, text: inserted },
        ),
        undo_change(
            spliced(text, at, inserted),
            ChangeView::Insert { at: at as usize, text: inserted },
        ) == text,
{
    let after = spliced(text, at, inserted);
    assert(after.subrange(at, at + inserted.len()) =~= inserted);
    if inserted.len() == 0 {
        assert(after =~= text);
    } else {
        assert(after.take(at) =~= text.take(at));
        assert(after.skip(at + inserted.len()) =~= text.skip(at));
        assert(cut(after, at, at + inserted.len()) =~= text);
    }
}

/// Deleting is a change that led to the new text.
proof fn delete_leads_to(text: Seq<char>, start: int, end: int)
    requires
        0 <= start < end <= text.len() <= usize::MAX,
    ensures
        change_led_to(
            cut(text, start, end),
            ChangeView::Delete { at: start as usize, text: text.subrange(start, end) },
        ),
        undo_change(
            cut(text, start, end),
            ChangeView::Delete { at: start as usize, text: text.subrange(start, end) },
        ) == text,
{
    let after = cut(text, start, end);
    assert(after.take(start) =~= text.take(start));
    assert(after.skip(start) =~= text.skip(end));
    assert(spliced(after, start, text.subrange(start, end)) =~= text);
}

/// Beginning an edit keeps a document consistent, unless an edit with changes is still open.
pub proof fn beginning_an_edit(document: DocumentView)
    requires
        document.consistent(),
        !document.has_pending_changes(),
    ensures
        document.begin_edit().consistent(),
        document.begin_edit().records_from(document.text),
{
    if let Some(pending) = document.pending {
        assert(pending.changes =~= Seq::<ChangeView>::empty());
    }
}

/// A recorded insertion keeps a document consistent, and the recorded edit still starts from
/// the same text.
pub proof fn inserting_in_an_edit(
    document: DocumentView,
    base: Seq<char>,
    index: int,
    text: Seq<char>,
)
    requires
        document.consistent(),
        document.records_from(base),
        0 <= index,
        document.text.len() + text.len() <= usize::MAX,
    ensures
        document.insert(index, text).consistent(),
        document.insert(index, text).records_from(base),
{
    let at = clamped(index, document.len());
    let pending = document.pending->0;
    insert_leads_to(document.text, at, text);
    if text.len() > 0 {
        one_more_change(
            document.text,
            spliced(document.text, at, text),
            pending.changes,
            ChangeView::Insert { at: at as usize, text },
        );
    } else {
        assert(spliced(document.text, at, text) =~= document.text);
    }
}

/// A recorded deletion keeps a document consistent, and the recorded edit still starts from
/// the same text.
pub proof fn deleting_in_an_edit(document: DocumentView, base: Seq<char>, start: int, end: int)
    requires
        document.consistent(),
        document.records_from(base),
        0 <= start,
    ensures
        document.delete_range(start, end).consistent(),
        document.delete_range(start, end).records_from(base),
{
    let pending = document.pending->0;
    if start < end && end <= document.len() {
        delete_leads_to(document.text, start, end);
        one_more_change(
            document.text,
            cut(document.text, start, end),
            pending.changes,
            ChangeView::Delete { at: start as usize, text: document.text.subrange(start, end) },
        );
    }
}

/// Deleting the selection in a recorded edit keeps a document consistent, and the recorded
/// edit still starts from the same text.
pub proof fn deleting_the_selection_in_an_edit(document: DocumentView, base: Seq<char>)
    requires
        document.consistent(),
        document.records_from(base),
    ensures
        document.delete_selection().consistent(),
        document.delete_selection().records_from(base),
{
    if let Some(range) = document.selection {
        deleting_in_an_edit(document, base, range.start as int, range.end as int);
    }
}

/// Committing keeps a document consistent.
pub proof fn committing_an_edit(document: DocumentView)
    requires
        document.consistent(),
    ensures
        document.commit_edit().consistent(),
        !document.commit_edit().has_pending_changes(),
{
    if let Some(pending) = document.pending {
        if pending.changes.len() > 0 {
            let undo = document.commit_edit().history.undo;
            assert(undo.drop_last() =~= document.history.undo);
            assert(undo.last() == document.operation(pending));
        }
    }
}

/// Undoing a committed edit gives back the text, the cursor and the selection that were there
/// when the edit began, and redoing it then gives back the text, the cursor and the selection
/// that were there when it was committed.
pub proof fn undo_takes_an_edit_back_and_redo_makes_it_again(document: DocumentView)
    requires
        document.consistent(),
        document.has_pending_changes(),
    ensures
        ({
            let pending = document.pending->0;
            let undone = document.commit_edit().undo();
            let redone = undone.redo();
            &&& undone.text == document.committed_text()
            &&& undone.cursor == clamped(pending.old_cursor as int, undone.text.len() as int)
            &&& undone.selection == pending.old_selection
            &&& redone.text == document.text
            &&& redone.cursor == document.cursor
            &&& redone.selection == document.selection
            &&& redone.history == document.commit_edit().history
        }),
{
    let pending = document.pending->0;
    let committed = document.commit_edit();
    let operation = document.operation(pending);
    assert(committed.history.undo.last() == operation);
    let undone = committed.undo();
    assert(undone.history.redo.last() == operation);
    redo_inverts_undo(document.text, pending.changes);
    assert(undone.redo().history.undo =~= committed.history.undo);
    assert(undone.redo().history.redo =~= committed.history.redo);
}

/// Undoing keeps a document consistent, and redoing it gives the text back, so that a saved
/// document is not dirty then.
pub proof fn undoing(document: DocumentView)
    requires
        document.consistent(),
        !document.has_pending_changes(),
    ensures
        document.undo().consistent(),
        document.history.undo.len() > 0 ==> document.undo().redo().text == document.text,
        document.history.undo.len() > 0 ==> !document.save_snapshot().undo().redo().dirty,
{
    if document.history.undo.len() > 0 {
        let operation = document.history.undo.last();
        assert(document.committed_text() == document.text);
        let undone = document.undo();
        redo_inverts_undo(document.text, operation.changes);
        assert(undone.history.redo.drop_last() =~= document.history.redo);
        assert(undone.history.redo.last() == operation);
        assert(undone.committed_text() == undone.text);
    }
}

/// Redoing keeps a document consistent, and undoing it gives the text back.
pub proof fn redoing(document: DocumentView)
    requires
        document.consistent(),
        !document.has_pending_changes(),
    ensures
        document.redo().consistent(),
        document.history.redo.len() > 0 ==> document.redo().undo().text == document.text,
{
    if document.history.redo.len() > 0 {
        let operation = document.history.redo.last();
        let redone = document.redo();
        assert(redone.history.undo.drop_last() =~= document.history.undo);
        assert(redone.history.undo.last() == operation);
        assert(redone.committed_text() == redone.text);
    }
}

} // verus!
