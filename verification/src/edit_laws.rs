//! What editing does to the characters, the cursor and the selection of a document.
use crate::commands::lines_are_in_order;
use crate::document::DocumentView;
use crate::document::{byte_of, byte_range, char_of, empty_document};
use crate::document_laws::{
    beginning_an_edit, char_to_byte_and_back, committing_an_edit, deleting_in_an_edit,
    deleting_the_selection_in_an_edit, undo_takes_an_edit_back_and_redo_makes_it_again,
};
use crate::editor_keys::EditorKey;
use crate::rope::text_hash;
use std::ops::Range;
use vstd::prelude::*;
use vstd::utf8::encode_utf8;

verus! {

/// After undo and redo a document is dirty exactly if its text does not have the hash of the
/// text that was saved, wherever in the history it stands.
pub proof fn undo_and_redo_know_the_saved_text(document: DocumentView)
    ensures
        document.history.undo.len() > 0 ==> (document.undo().dirty <==> text_hash(
            document.undo().text,
        ) != document.last_saved_hash),
        document.history.redo.len() > 0 ==> (document.redo().dirty <==> text_hash(
            document.redo().text,
        ) != document.last_saved_hash),
        document.history.undo.len() == 0 ==> document.undo() == document,
        document.history.redo.len() == 0 ==> document.redo() == document,
        document.undo().last_saved_hash == document.last_saved_hash,
        document.redo().last_saved_hash == document.last_saved_hash,
        document.undo().path == document.path,
        document.redo().path == document.path,
{
}

/// A document that was saved and then edited, undone and redone is dirty after an undo or a redo
/// unless the text has the hash of the one that was saved.
pub proof fn the_saved_text_is_not_dirty(saved: DocumentView, later: DocumentView)
    requires
        later.last_saved_hash == saved.save_snapshot().last_saved_hash,
        later.history.undo.len() > 0,
    ensures
        !saved.save_snapshot().dirty,
        saved.save_snapshot().text == saved.text,
        later.undo().text == saved.text ==> !later.undo().dirty,
        text_hash(later.undo().text) != text_hash(saved.text) ==> later.undo().dirty,
{
}

/// Undo moves one edit from those that can be undone to those that can be redone, and redo moves
/// it back.
pub proof fn undo_and_redo_walk_through_the_history(document: DocumentView)
    ensures
        document.history.undo.len() > 0 ==> ({
            let undone = document.undo();
            &&& undone.history.undo == document.history.undo.take(
                document.history.undo.len() - 1,
            )
            &&& undone.history.redo.len() == document.history.redo.len() + 1
            &&& undone.redo().history == document.history
        }),
        document.history.redo.len() > 0 ==> ({
            let redone = document.redo();
            &&& redone.history.redo == document.history.redo.take(
                document.history.redo.len() - 1,
            )
            &&& redone.history.undo.len() == document.history.undo.len() + 1
            &&& redone.undo().history == document.history
        }),
{
    let history = document.history;
    if history.undo.len() > 0 {
        let undone = document.undo();
        assert(history.undo.drop_last() =~= history.undo.take(history.undo.len() - 1));
        assert(undone.redo().history.undo =~= history.undo);
        assert(undone.redo().history.redo =~= history.redo);
    }
    if history.redo.len() > 0 {
        let redone = document.redo();
        assert(history.redo.drop_last() =~= history.redo.take(history.redo.len() - 1));
        assert(redone.undo().history.undo =~= history.undo);
        assert(redone.undo().history.redo =~= history.redo);
    }
}

/// Undo puts the cursor and the selection where they were when the edit began, and redo where
/// they were when it was committed, with the selection anchored at the end that the cursor is
/// not at. Nothing can be redone behind a new edit, and undoing once more takes back the edit
/// before it.
pub proof fn undo_gives_cursor_and_selection_back(document: DocumentView)
    requires
        document.consistent(),
        document.has_pending_changes(),
    ensures
        ({
            let begun = document.pending->0;
            let committed = document.commit_edit();
            let undone = committed.undo();
            let redone = undone.redo();
            let before = DocumentView {
                text: document.committed_text(),
                pending: None,
                ..document
            };
            &&& committed.history.redo.len() == 0
            &&& committed.history.undo.len() == document.history.undo.len() + 1
            &&& committed.history.undo.take(document.history.undo.len() as int)
                == document.history.undo
            &&& begun.old_cursor <= undone.text.len() ==> undone.cursor == begun.old_cursor
            &&& undone.selection == begun.old_selection
            &&& undone.selection is None ==> undone.selection_anchor is None
            &&& undone.selection matches Some(range) ==> {
                &&& undone.cursor == range.end ==> undone.selection_anchor == Some(range.start)
                &&& undone.cursor == range.start ==> undone.selection_anchor == Some(range.end)
            }
            &&& redone.cursor == document.cursor
            &&& redone.selection == document.selection
            &&& redone.selection matches Some(range) ==> {
                &&& redone.cursor == range.end ==> redone.selection_anchor == Some(range.start)
                &&& redone.cursor == range.start ==> redone.selection_anchor == Some(range.end)
            }
            &&& undone.history.undo == document.history.undo
            &&& document.history.undo.len() > 0 ==> undone.undo().text == before.undo().text
        }),
{
    undo_takes_an_edit_back_and_redo_makes_it_again(document);
    committing_an_edit(document);
    let committed = document.commit_edit();
    assert(committed.history.undo.drop_last() =~= document.history.undo);
    assert(committed.history.undo.take(document.history.undo.len() as int)
        =~= document.history.undo);
}

/// An edit that changed nothing leaves no trace in the history, nor does anything outside of an
/// edit.
pub proof fn an_edit_without_changes_is_not_recorded(document: DocumentView)
    requires
        !document.has_pending_changes(),
    ensures
        document.commit_edit().history == document.history,
        document.commit_edit().text == document.text,
        document.commit_edit().cursor == document.cursor,
        document.commit_edit().selection == document.selection,
        document.commit_edit().dirty == document.dirty,
        document.begin_edit().commit_edit().history == document.history,
        document.begin_edit().text == document.text,
        document.begin_edit().cursor == document.cursor,
        document.begin_edit().selection == document.selection,
        document.begin_edit().dirty == document.dirty,
{
}

/// A new document is empty: there is nothing in it, nothing selected, and nothing to save or to
/// undo.
pub proof fn a_new_document_is_empty()
    ensures
        empty_document().text.len() == 0,
        empty_document().path is None,
        !empty_document().dirty,
        empty_document().cursor == 0,
        empty_document().selection is None,
        empty_document().word_count == Some(0usize),
        empty_document().undo() == empty_document(),
        empty_document().redo() == empty_document(),
{
}

/// Inserting puts the characters in before the one at the index, or at the end if there is none
/// there, and leaves every other character, the cursor and the history where they are. What was
/// selected no longer is, and the document is dirty.
pub proof fn inserting_puts_characters_in(document: DocumentView, index: int, text: Seq<char>)
    requires
        0 <= index,
    ensures
        ({
            let after = document.insert(index, text);
            let at = if index < document.text.len() {
                index
            } else {
                document.text.len() as int
            };
            &&& after.text.len() == document.text.len() + text.len()
            &&& after.text == document.text.take(at) + text + document.text.skip(at)
            &&& after.cursor == document.cursor
            &&& after.selection is None
            &&& after.selection_anchor is None
            &&& after.dirty
            &&& after.word_count is None
            &&& after.history == document.history
            &&& after.path == document.path
            &&& after.last_saved_hash == document.last_saved_hash
        }),
{
}

/// Deleting takes the characters of the range out, if they are there, and leaves every other
/// character where it is. The cursor stays inside of the text, what was selected no longer is,
/// and the document is dirty.
pub proof fn deleting_takes_characters_out(document: DocumentView, start: int, end: int)
    requires
        0 <= start,
        document.text.len() <= usize::MAX,
    ensures
        ({
            let after = document.delete_range(start, end);
            if start < end <= document.text.len() {
                &&& after.text.len() == document.text.len() - (end - start)
                &&& after.text == document.text.take(start) + document.text.skip(end)
                &&& document.cursor <= after.text.len() ==> after.cursor == document.cursor
                &&& document.cursor > after.text.len() ==> after.cursor == after.text.len()
                &&& after.selection is None
                &&& after.selection_anchor is None
                &&& after.dirty
                &&& after.word_count is None
                &&& after.history == document.history
                &&& after.path == document.path
                &&& after.last_saved_hash == document.last_saved_hash
            } else {
                after == document
            }
        }),
{
}

/// Deleting the selection takes exactly the selected characters out and puts the cursor where
/// they were.
pub proof fn deleting_the_selection_takes_it_out(document: DocumentView)
    requires
        document.text.len() <= usize::MAX,
    ensures
        document.selection is None ==> document.delete_selection() == document,
        document.selection matches Some(range) && range.start < range.end <= document.text.len()
            ==> ({
            let range = document.selection->0;
            let after = document.delete_selection();
            &&& after.text == document.text.take(range.start as int) + document.text.skip(
                range.end as int,
            )
            &&& after.cursor == range.start
            &&& after.selection is None
            &&& after.selection_anchor is None
        }),
{
}

/// A text that is set is there as a whole, with the cursor behind it and nothing selected. What
/// was saved and what can be undone stays as it was.
pub proof fn setting_the_text_replaces_it(document: DocumentView, text: Seq<char>)
    requires
        text.len() <= usize::MAX,
    ensures
        document.set_text(text).text == text,
        document.set_text(text).cursor == text.len(),
        document.set_text(text).selection is None,
        document.set_text(text).selection_anchor is None,
        document.set_text(text).word_count is None,
        document.set_text(text).dirty == document.dirty,
        document.set_text(text).path == document.path,
        document.set_text(text).history == document.history,
        document.set_text(text).last_saved_hash == document.last_saved_hash,
{
}

/// The cursor goes to an index of the text, or to the end from behind it, and nothing is
/// selected then.
pub proof fn the_cursor_goes_where_it_is_set(document: DocumentView, index: int)
    requires
        0 <= index,
        document.text.len() <= usize::MAX,
    ensures
        ({
            let after = document.set_cursor(index);
            &&& index <= document.text.len() ==> after.cursor == index
            &&& index > document.text.len() ==> after.cursor == document.text.len()
            &&& after.selection is None
            &&& after.selection_anchor is None
            &&& after.text == document.text
            &&& after.dirty == document.dirty
            &&& after.history == document.history
            &&& after.revision == document.revision
        }),
{
}

/// Selecting takes in every character between the anchor and the head, whichever comes first,
/// with the cursor at the head. Between an index and itself nothing is selected.
pub proof fn selecting_takes_in_what_lies_between(document: DocumentView, anchor: int, head: int)
    requires
        0 <= anchor <= document.text.len(),
        0 <= head <= document.text.len(),
        document.text.len() <= usize::MAX,
    ensures
        ({
            let after = document.set_selection(anchor, head);
            &&& after.cursor == head
            &&& after.selection_anchor matches Some(kept) && kept == anchor
            &&& after.selection is None <==> anchor == head
            &&& after.selection matches Some(range) ==> forall|i: int|
                #![trigger document.text[i]]
                range.start <= i < range.end <==> anchor <= i < head || head <= i < anchor
            &&& after.selection matches Some(range) ==> range.start < range.end
            &&& after.selection matches Some(range) ==> range.start == anchor && range.end == head
                || range.start == head && range.end == anchor
            &&& after.text == document.text
            &&& after.dirty == document.dirty
            &&& after.history == document.history
            &&& after.revision == document.revision
        }),
{
}

/// Ends of a selection that lie behind the text count as its end.
pub proof fn selections_end_with_the_text(document: DocumentView, anchor: int, head: int)
    requires
        0 <= anchor,
        0 <= head,
        document.text.len() <= usize::MAX,
    ensures
        anchor > document.text.len() ==> document.set_selection(anchor, head)
            == document.set_selection(document.text.len() as int, head),
        head > document.text.len() ==> document.set_selection(anchor, head)
            == document.set_selection(anchor, document.text.len() as int),
{
}

/// Selecting all takes in every character, with the cursor at the end and the anchor at the
/// start.
pub proof fn selecting_all_takes_in_every_character(document: DocumentView)
    requires
        document.text.len() <= usize::MAX,
    ensures
        ({
            let after = document.select_all();
            &&& document.text.len() > 0 ==> (after.selection matches Some(range) && range.start
                == 0 && range.end == document.text.len())
            &&& document.text.len() == 0 ==> after.selection is None
            &&& after.cursor == document.text.len()
            &&& after.selection_anchor == Some(0usize)
            &&& after.text == document.text
            &&& after.dirty == document.dirty
            &&& after.history == document.history
        }),
{
}

/// With nothing selected, the anchor of a selection is forgotten too.
pub proof fn clearing_the_selection_forgets_the_anchor(document: DocumentView)
    ensures
        document.clear_selection().selection is None,
        document.clear_selection().selection_anchor is None,
        document.clear_selection().cursor == document.cursor,
        document.clear_selection().text == document.text,
{
}

/// The selected text is what stands between the text before it and the text behind it.
pub proof fn the_selected_text_is_what_is_selected(document: DocumentView)
    ensures
        document.selected() is Some <==> document.selection is Some,
        document.selection matches Some(range) && range.start <= range.end <= document.text.len()
            ==> ({
            let range = document.selection->0;
            let selected = document.selected()->0;
            &&& selected.len() == range.end - range.start
            &&& document.text.take(range.start as int) + selected + document.text.skip(
                range.end as int,
            ) == document.text
        }),
{
    if let Some(range) = document.selection {
        if range.start <= range.end <= document.text.len() {
            assert(document.text.take(range.start as int) + document.selected()->0
                + document.text.skip(range.end as int) =~= document.text);
        }
    }
}

/// A saved document has the hash of its text and is not dirty. Nothing else of it changes.
pub proof fn saving_notes_the_text(document: DocumentView)
    ensures
        ({
            let after = document.save_snapshot();
            &&& after.last_saved_hash == text_hash(document.text)
            &&& !after.dirty
            &&& after.text == document.text
            &&& after.cursor == document.cursor
            &&& after.selection == document.selection
            &&& after.history == document.history
            &&& after.pending == document.pending
            &&& after.path == document.path
            &&& after.revision == document.revision
        }),
{
}

/// Without a history there is nothing to undo or to redo, and nothing else has changed.
pub proof fn a_cleared_history_is_empty(document: DocumentView)
    ensures
        document.clear_undo_history().undo() == document.clear_undo_history(),
        document.clear_undo_history().redo() == document.clear_undo_history(),
        document.clear_undo_history().commit_edit().history
            == document.clear_undo_history().history,
        document.clear_undo_history().text == document.text,
        document.clear_undo_history().cursor == document.cursor,
        document.clear_undo_history().dirty == document.dirty,
        document.clear_undo_history().path == document.path,
{
}

/// Backspace takes out the character before the cursor and moves the cursor to its place.
pub proof fn backspace_takes_out_the_character_before_the_cursor(document: DocumentView)
    requires
        document.selection is None,
        0 < document.cursor <= document.text.len(),
        document.text.len() <= usize::MAX,
    ensures
        ({
            let after = document.backspace();
            &&& after.text == document.text.take(document.cursor - 1) + document.text.skip(
                document.cursor as int,
            )
            &&& after.cursor == document.cursor - 1
            &&& after.selection is None
            &&& after.dirty
            &&& after.pending is None
            &&& after.history.undo.len() == document.history.undo.len() + 1
        }),
{
}

/// Delete takes out the character behind the cursor and leaves the cursor where it is.
pub proof fn delete_takes_out_the_character_behind_the_cursor(document: DocumentView)
    requires
        document.selection is None,
        document.cursor < document.text.len() <= usize::MAX,
    ensures
        ({
            let after = document.delete_forward();
            &&& after.text == document.text.take(document.cursor as int) + document.text.skip(
                document.cursor + 1,
            )
            &&& after.cursor == document.cursor
            &&& after.selection is None
            &&& after.dirty
            &&& after.pending is None
            &&& after.history.undo.len() == document.history.undo.len() + 1
        }),
{
}

/// Backspace and delete take out what is selected, whatever stands next to it, and put the
/// cursor where it was.
pub proof fn backspace_and_delete_take_out_the_selection(document: DocumentView, range: Range<usize>)
    requires
        document.selection == Some(range),
        range.start < range.end <= document.text.len() <= usize::MAX,
    ensures
        ({
            let rest = document.text.take(range.start as int) + document.text.skip(
                range.end as int,
            );
            &&& document.backspace().text == rest
            &&& document.backspace().cursor == range.start
            &&& document.backspace().selection is None
            &&& document.backspace().history.undo.len() == document.history.undo.len() + 1
            &&& document.delete_forward().text == rest
            &&& document.delete_forward().cursor == range.start
            &&& document.delete_forward().selection is None
            &&& document.delete_forward().history.undo.len() == document.history.undo.len() + 1
        }),
{
}

/// At the start of the text there is nothing before the cursor to take out, and at its end
/// nothing behind it.
pub proof fn nothing_is_taken_out_beyond_the_text(document: DocumentView)
    requires
        document.selection is None,
    ensures
        document.cursor == 0 ==> ({
            &&& document.backspace().text == document.text
            &&& document.backspace().cursor == 0
            &&& document.backspace().history == document.history
            &&& document.backspace().dirty == document.dirty
        }),
        document.cursor >= document.text.len() ==> ({
            &&& document.delete_forward().text == document.text
            &&& document.delete_forward().cursor == document.cursor
            &&& document.delete_forward().history == document.history
            &&& document.delete_forward().dirty == document.dirty
        }),
{
}

/// Undo gives back what backspace and delete took out, with the cursor and the selection that
/// were there.
pub proof fn undo_gives_back_what_was_taken_out(document: DocumentView)
    requires
        document.consistent(),
        !document.has_pending_changes(),
    ensures
        document.selection is Some || document.cursor > 0 ==> ({
            let undone = document.backspace().undo();
            &&& undone.text == document.text
            &&& undone.cursor == document.cursor
            &&& undone.selection == document.selection
        }),
        document.selection is Some || document.cursor < document.text.len() ==> ({
            let undone = document.delete_forward().undo();
            &&& undone.text == document.text
            &&& undone.cursor == document.cursor
            &&& undone.selection == document.selection
        }),
{
    beginning_an_edit(document);
    let begun = document.begin_edit();
    if document.selection is Some {
        deleting_the_selection_in_an_edit(begun, document.text);
        undo_takes_an_edit_back_and_redo_makes_it_again(begun.delete_selection());
    } else {
        if document.cursor > 0 {
            let at = document.cursor - 1;
            deleting_in_an_edit(begun, document.text, at, at + 1);
            undo_takes_an_edit_back_and_redo_makes_it_again(
                begun.delete_range(at, at + 1).place_cursor(at),
            );
        }
        if document.cursor < document.text.len() {
            let at = document.cursor as int;
            deleting_in_an_edit(begun, document.text, at, at + 1);
            undo_takes_an_edit_back_and_redo_makes_it_again(begun.delete_range(at, at + 1));
        }
    }
}

/// Typing and pasting put the text in the place of what is selected, or at the cursor, with the
/// cursor behind the text and nothing selected.
pub proof fn typing_replaces_the_selection(document: DocumentView, text: Seq<char>)
    requires
        document.text.len() + text.len() <= usize::MAX,
        document.cursor <= document.text.len(),
        document.selection matches Some(range) ==> range.start < range.end <= document.text.len(),
    ensures
        ({
            let after = document.type_text(text);
            &&& after.selection is None
            &&& after.selection_anchor is None
            &&& after.dirty
            &&& after.pending is None
            &&& document.selection matches Some(range) ==> {
                &&& after.text == document.text.take(range.start as int) + text
                    + document.text.skip(range.end as int)
                &&& after.cursor == range.start + text.len()
            }
            &&& document.selection is None ==> {
                &&& after.text == document.text.take(document.cursor as int) + text
                    + document.text.skip(document.cursor as int)
                &&& after.cursor == document.cursor + text.len()
            }
            &&& text.len() > 0 ==> after.history.undo.len() == document.history.undo.len() + 1
        }),
{
    if let Some(range) = document.selection {
        let start = range.start as int;
        let rest = document.text.take(start) + document.text.skip(range.end as int);
        assert(rest.take(start) =~= document.text.take(start));
        assert(rest.skip(start) =~= document.text.skip(range.end as int));
    }
}

/// Every key does what it stands for, and keys that stand for nothing leave the document alone.
pub proof fn keys_do_what_they_stand_for(document: DocumentView, key: EditorKey, shift: bool)
    ensures
        document.keyed(EditorKey::Backspace, shift) == document.backspace(),
        document.keyed(EditorKey::Delete, shift) == document.delete_forward(),
        document.keyed(EditorKey::Enter, shift) == document.type_text(seq!['\n']),
        document.keyed(EditorKey::Left, shift) == document.move_left(shift),
        document.keyed(EditorKey::Right, shift) == document.move_right(shift),
        document.keyed(EditorKey::Up, shift) == document.move_up(shift),
        document.keyed(EditorKey::Down, shift) == document.move_down(shift),
        key != EditorKey::Backspace && key != EditorKey::Delete && key != EditorKey::Enter && key
            != EditorKey::Left && key != EditorKey::Right && key != EditorKey::Up && key
            != EditorKey::Down ==> document.keyed(key, shift) == document && !document.answers(key),
        document.keyed(key, shift).text != document.text ==> document.answers(key),
        document.keyed(key, shift).cursor != document.cursor ==> document.answers(key),
        document.answers(EditorKey::Enter),
        document.answers(EditorKey::Left) <==> document.cursor != 0,
        document.answers(EditorKey::Right) <==> document.cursor < document.text.len(),
{
    let cursor = if document.cursor <= document.text.len() {
        document.cursor as int
    } else {
        document.text.len() as int
    };
    lines_are_in_order(document.text, cursor, cursor);
}

/// A key that is answered takes something out, puts something in or moves the cursor.
pub proof fn answered_keys_change_the_document(document: DocumentView)
    requires
        document.consistent(),
        document.text.len() < usize::MAX,
    ensures
        document.answers(EditorKey::Backspace) <==> document.backspace().text.len()
            < document.text.len(),
        document.answers(EditorKey::Delete) <==> document.delete_forward().text.len()
            < document.text.len(),
        document.answers(EditorKey::Left) <==> document.move_left(false).cursor
            != document.cursor,
        document.answers(EditorKey::Right) <==> document.move_right(false).cursor
            != document.cursor,
{
}

/// The arrows move the cursor by one character and stop at the ends of the text. What was
/// selected no longer is.
pub proof fn arrows_move_by_one_character(document: DocumentView)
    requires
        document.cursor <= document.text.len() <= usize::MAX,
    ensures
        document.cursor > 0 ==> ({
            let after = document.move_left(false);
            &&& after.cursor == document.cursor - 1
            &&& after.selection is None
            &&& after.selection_anchor is None
            &&& after.text == document.text
            &&& after.history == document.history
        }),
        document.cursor == 0 ==> document.move_left(false) == document,
        document.cursor < document.text.len() ==> ({
            let after = document.move_right(false);
            &&& after.cursor == document.cursor + 1
            &&& after.selection is None
            &&& after.selection_anchor is None
            &&& after.text == document.text
            &&& after.history == document.history
        }),
        document.cursor == document.text.len() ==> document.move_right(false) == document,
        document.cursor < document.text.len() ==> document.move_right(false).move_left(
            false,
        ).cursor == document.cursor,
{
}

/// With shift, the arrows select from the anchor to where the cursor goes. The anchor is the one
/// of the selection, or where the cursor was.
pub proof fn arrows_extend_the_selection(document: DocumentView)
    requires
        document.cursor <= document.text.len() <= usize::MAX,
        document.selection_anchor matches Some(anchor) ==> anchor <= document.text.len(),
    ensures
        ({
            let anchor = match document.selection_anchor {
                Some(anchor) => anchor,
                None => document.cursor,
            };
            let left = document.move_left(true);
            let right = document.move_right(true);
            &&& document.cursor > 0 ==> {
                &&& left.cursor == document.cursor - 1
                &&& left.selection_anchor == Some(anchor)
                &&& left.selection is None <==> anchor == left.cursor
                &&& left.selection matches Some(range) ==> range.start == anchor && range.end
                    == left.cursor || range.start == left.cursor && range.end == anchor
                &&& left.selection matches Some(range) ==> range.start < range.end
                &&& left.text == document.text
            }
            &&& document.cursor < document.text.len() ==> {
                &&& right.cursor == document.cursor + 1
                &&& right.selection_anchor == Some(anchor)
                &&& right.selection is None <==> anchor == right.cursor
                &&& right.selection matches Some(range) ==> range.start == anchor && range.end
                    == right.cursor || range.start == right.cursor && range.end == anchor
                &&& right.selection matches Some(range) ==> range.start < range.end
                &&& right.text == document.text
            }
            &&& document.cursor == 0 ==> left == document
            &&& document.cursor == document.text.len() ==> right == document
        }),
{
}

/// Pointing at a byte of a character puts the cursor before that character, and selects nothing,
/// or everything from the anchor to there.
pub proof fn pointing_goes_to_the_character(document: DocumentView, index: int, byte: int)
    requires
        document.in_bounds(),
        0 <= index <= document.text.len(),
        encode_utf8(document.text.take(index)).len() <= byte,
        index < document.text.len() ==> byte < encode_utf8(document.text.take(index + 1)).len(),
    ensures
        ({
            let pointed = document.point_at(byte, false);
            let dragged = document.point_at(byte, true);
            let anchor = match document.selection_anchor {
                Some(anchor) => anchor,
                None => document.cursor,
            };
            &&& pointed.cursor == index
            &&& pointed.selection is None
            &&& pointed.selection_anchor is None
            &&& pointed.text == document.text
            &&& dragged.cursor == index
            &&& dragged.selection_anchor == Some(anchor)
            &&& dragged.selection is None <==> anchor == index
            &&& dragged.selection matches Some(range) ==> range.start == anchor && range.end
                == index || range.start == index && range.end == anchor
            &&& dragged.selection matches Some(range) ==> range.start < range.end
            &&& dragged.text == document.text
        }),
{
    char_to_byte_and_back(document.text, index, byte);
}

/// The byte of a character is the number of bytes before it, and a range of characters takes up
/// the bytes from its first character to its end.
pub proof fn bytes_are_counted_before_a_character(text: Seq<char>, range: Range<usize>)
    requires
        range.start <= range.end <= text.len(),
        encode_utf8(text.take(range.start as int)).len() <= usize::MAX,
        encode_utf8(text.take(range.end as int)).len() <= usize::MAX,
    ensures
        byte_of(text, range.start as int) == encode_utf8(text.take(range.start as int)).len(),
        byte_range(text, range).start == encode_utf8(text.take(range.start as int)).len(),
        byte_range(text, range).end == encode_utf8(text.take(range.end as int)).len(),
{
}

/// Behind the end of the text, bytes and characters count as its end.
pub proof fn what_lies_behind_the_text_is_its_end(text: Seq<char>, index: int, byte: int)
    ensures
        index >= text.len() ==> byte_of(text, index) == encode_utf8(text).len(),
        byte >= encode_utf8(text).len() ==> char_of(text, byte) == text.len(),
{
    assert(text.take(text.len() as int) =~= text);
    if byte >= encode_utf8(text).len() {
        char_to_byte_and_back(text, text.len() as int, byte);
        char_to_byte_and_back(text, text.len() as int, encode_utf8(text).len() as int);
    }
}

} // verus!
