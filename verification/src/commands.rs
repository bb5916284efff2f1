//! What the keys, the pointer and the clipboard do to a document.
use crate::document::{char_of, DocumentState, DocumentView};
use crate::rope::{rope_char_to_line, rope_len_lines, rope_line_len, rope_line_to_char};
use crate::rope::{line_count, line_of, line_start, line_start_from};
use crate::undo::{capped, clamped};
use vstd::prelude::*;
use vstd::string::*;

verus! {

/// Where the cursor goes when it moves to another line: to the column that it has in its own
/// line, or to the end of the line.
pub open spec fn place_in_line(text: Seq<char>, cursor: int, line: int) -> int {
    let column = cursor - line_start(text, line_of(text, cursor));
    let start = line_start(text, line);
    let len = line_start(text, line + 1) - start;
    let last = if line + 1 < line_count(text) {
        if len == 0 {
            0
        } else {
            len - 1
        }
    } else {
        len
    };
    start + if column < 0 {
        0
    } else {
        clamped(column, last)
    }
}

impl DocumentView {
    /// The document with its cursor somewhere else.
    pub open spec fn place_cursor(self, index: int) -> Self {
        DocumentView { cursor: index as usize, ..self }
    }

    /// Where a selection that is extended starts.
    pub open spec fn anchor(self) -> usize {
        match self.selection_anchor {
            Some(anchor) => anchor,
            None => self.cursor,
        }
    }

    /// The document without what is selected, or without the character before the cursor. An
    /// edit that finds nothing to take out is left open.
    pub open spec fn backspace(self) -> Self {
        if self.selection is Some {
            self.begin_edit().delete_selection().commit_edit()
        } else if self.cursor > 0 && self.len() > 0 {
            self.begin_edit().delete_range(self.cursor - 1, self.cursor as int).place_cursor(
                self.cursor - 1,
            ).commit_edit()
        } else {
            self.begin_edit()
        }
    }

    /// The document without what is selected, or without the character behind the cursor. An
    /// edit that finds nothing to take out is left open.
    pub open spec fn delete_forward(self) -> Self {
        if self.selection is Some {
            self.begin_edit().delete_selection().commit_edit()
        } else if self.cursor < self.len() {
            self.begin_edit().delete_range(self.cursor as int, self.cursor + 1).commit_edit()
        } else {
            self.begin_edit()
        }
    }

    /// The document with what is selected replaced by a text, and the cursor behind the text.
    pub open spec fn type_text(self, text: Seq<char>) -> Self {
        let cleared = self.begin_edit().delete_selection();
        cleared.insert(cleared.cursor as int, text).place_cursor(
            capped(cleared.cursor + text.len()) as int,
        ).commit_edit()
    }

    /// The document with the cursor one character to the left.
    pub open spec fn move_left(self, extend: bool) -> Self {
        if self.cursor == 0 {
            self
        } else if extend {
            self.set_selection(self.anchor() as int, self.cursor - 1)
        } else {
            self.place_cursor(self.cursor - 1).clear_selection()
        }
    }

    /// The document with the cursor one character to the right.
    pub open spec fn move_right(self, extend: bool) -> Self {
        if self.cursor >= self.len() {
            self
        } else if extend {
            self.set_selection(self.anchor() as int, self.cursor + 1)
        } else {
            self.place_cursor(self.cursor + 1).clear_selection()
        }
    }

    /// The line that the cursor is in.
    pub open spec fn cursor_line(self) -> int {
        line_of(self.text, clamped(self.cursor as int, self.len()))
    }

    /// The document with the cursor in another line.
    pub open spec fn move_to_line(self, line: int, extend: bool) -> Self {
        let cursor = clamped(self.cursor as int, self.len());
        let place = place_in_line(self.text, cursor, line);
        if extend {
            let anchor = match self.selection_anchor {
                Some(anchor) => anchor as int,
                None => cursor,
            };
            self.set_selection(anchor, place)
        } else {
            self.place_cursor(place).clear_selection()
        }
    }

    /// The document with the cursor one line up.
    pub open spec fn move_up(self, extend: bool) -> Self {
        if self.cursor_line() == 0 {
            self
        } else {
            self.move_to_line(self.cursor_line() - 1, extend)
        }
    }

    /// The document with the cursor one line down.
    pub open spec fn move_down(self, extend: bool) -> Self {
        if self.cursor_line() + 1 >= line_count(self.text) {
            self
        } else {
            self.move_to_line(self.cursor_line() + 1, extend)
        }
    }

    /// The document with the cursor at the character of a byte, or with everything up to it
    /// selected.
    pub open spec fn point_at(self, byte: int, extend: bool) -> Self {
        let index = char_of(self.text, byte);
        if extend {
            self.set_selection(self.anchor() as int, index)
        } else {
            self.set_cursor(index)
        }
    }

    /// The selection is a range of the text.
    pub open spec fn selection_lies_inside(self) -> bool {
        self.selection matches Some(range) ==> range.start <= range.end <= self.text.len()
    }

    /// The selected characters.
    pub open spec fn selected(self) -> Option<Seq<char>> {
        match self.selection {
            Some(range) => Some(self.text.subrange(range.start as int, range.end as int)),
            None => None,
        }
    }
}

/// The lines of a text do not start behind its end.
proof fn line_start_bounds(text: Seq<char>, line: int, index: int)
    requires
        0 <= index <= text.len(),
    ensures
        index <= line_start_from(text, line, index) <= text.len(),
    decreases text.len() - index,
{
    if index < text.len() {
        line_start_bounds(text, line, index + 1);
    }
}

/// Lines are numbered in order.
pub proof fn lines_are_in_order(text: Seq<char>, first: int, second: int)
    requires
        0 <= first <= second <= text.len(),
    ensures
        0 <= line_of(text, first) <= line_of(text, second) < line_count(text),
    decreases text.len() - first,
{
    if first < second {
        lines_are_in_order(text, first + 1, second);
        line_numbers_are_not_negative(text, first);
    } else {
        line_numbers_are_not_negative(text, first);
        if second < text.len() {
            lines_are_in_order(text, second + 1, text.len() as int);
        }
    }
}

proof fn line_numbers_are_not_negative(text: Seq<char>, index: int)
    ensures
        0 <= line_of(text, index),
    decreases index,
{
    if index > 0 {
        line_numbers_are_not_negative(text, index - 1);
    }
}

/// A line does not start behind the next one.
proof fn lines_start_in_order(text: Seq<char>, line: int, index: int)
    requires
        0 <= index <= text.len(),
    ensures
        line_start_from(text, line, index) <= line_start_from(text, line + 1, index),
    decreases text.len() - index,
{
    if index < text.len() && line_of(text, index) < line {
        lines_start_in_order(text, line, index + 1);
    } else {
        line_start_bounds(text, line + 1, index);
    }
}

/// The place that the cursor goes to in another line is one of the text.
pub proof fn place_in_line_lies_inside(text: Seq<char>, cursor: int, line: int)
    ensures
        0 <= place_in_line(text, cursor, line) <= text.len(),
{
    line_start_bounds(text, line, 0);
    line_start_bounds(text, line + 1, 0);
    lines_start_in_order(text, line, 0);
}

fn anchor_of(doc: &DocumentState) -> (anchor: usize)
    ensures
        anchor == doc@.anchor(),
{
    match doc.selection_anchor {
        Some(anchor) => anchor,
        None => doc.cursor,
    }
}

/// Deletes what is selected, or the character before the cursor. Returns whether there is
/// something new to show.
pub fn backspace(doc: &mut DocumentState) -> (changed: bool)
    ensures
        final(doc)@ == old(doc)@.backspace(),
        changed == (old(doc)@.selection is Some || (old(doc)@.cursor > 0 && old(doc)@.len() > 0)),
{
    let len = doc.len_chars();
    doc.begin_edit();
    if doc.delete_selection().is_some() {
        doc.commit_edit();
        return true;
    }
    if doc.cursor > 0 && len > 0 {
        let end = doc.cursor;
        let start = end - 1;
        doc.delete_range(start..end);
        doc.cursor = start;
        doc.commit_edit();
        return true;
    }
    false
}

/// Deletes what is selected, or the character behind the cursor. Returns whether there is
/// something new to show.
pub fn delete_forward(doc: &mut DocumentState) -> (changed: bool)
    ensures
        final(doc)@ == old(doc)@.delete_forward(),
        changed == (old(doc)@.selection is Some || old(doc)@.cursor < old(doc)@.len()),
{
    let len = doc.len_chars();
    doc.begin_edit();
    if doc.delete_selection().is_some() {
        doc.commit_edit();
        return true;
    }
    if doc.cursor < len {
        let start = doc.cursor;
        doc.delete_range(start..start + 1);
        doc.commit_edit();
        return true;
    }
    false
}

/// Replaces what is selected with a text and puts the cursor behind it.
pub fn type_text(doc: &mut DocumentState, text: &str)
    ensures
        final(doc)@ == old(doc)@.type_text(text@),
{
    doc.begin_edit();
    doc.delete_selection();
    let insert_at = doc.cursor;
    doc.insert(insert_at, text);
    doc.cursor = insert_at.saturating_add(text.unicode_len());
    doc.commit_edit();
}

/// Replaces what is selected with a line break.
pub fn new_line(doc: &mut DocumentState)
    ensures
        final(doc)@ == old(doc)@.type_text(seq!['\n']),
{
    proof {
        reveal_strlit("\n");
        assert("\n"@ =~= seq!['\n']);
    }
    type_text(doc, "\n");
}

/// Moves the cursor one character to the left. Returns whether it moved.
pub fn move_left(doc: &mut DocumentState, extend: bool) -> (moved: bool)
    ensures
        final(doc)@ == old(doc)@.move_left(extend),
        moved == (old(doc)@.cursor > 0),
{
    if doc.cursor == 0 {
        return false;
    }
    if extend {
        let anchor = anchor_of(doc);
        let head = doc.cursor - 1;
        doc.set_selection(anchor, head);
    } else {
        doc.cursor = doc.cursor - 1;
        doc.clear_selection();
    }
    true
}

/// Moves the cursor one character to the right. Returns whether it moved.
pub fn move_right(doc: &mut DocumentState, extend: bool) -> (moved: bool)
    ensures
        final(doc)@ == old(doc)@.move_right(extend),
        moved == (old(doc)@.cursor < old(doc)@.len()),
{
    if doc.cursor >= doc.len_chars() {
        return false;
    }
    if extend {
        let anchor = anchor_of(doc);
        let head = doc.cursor + 1;
        doc.set_selection(anchor, head);
    } else {
        doc.cursor = doc.cursor + 1;
        doc.clear_selection();
    }
    true
}

/// Moves the cursor to another line, which is there.
fn move_to_line(doc: &mut DocumentState, line: usize, extend: bool)
    requires
        line < line_count(old(doc)@.text),
    ensures
        final(doc)@ == old(doc)@.move_to_line(line as int, extend),
{
    let ghost text = doc@.text;
    let len = doc.len_chars();
    let cursor = if doc.cursor <= len {
        doc.cursor
    } else {
        len
    };
    proof {
        lines_are_in_order(text, cursor as int, cursor as int);
        line_start_bounds(text, line + 1, 0);
    }
    let own_line = rope_char_to_line(&doc.rope, cursor);
    let own_start = rope_line_to_char(&doc.rope, own_line);
    let column = cursor.saturating_sub(own_start);
    let target_start = rope_line_to_char(&doc.rope, line);
    let target_len = rope_line_len(&doc.rope, line);
    let lines = rope_len_lines(&doc.rope);
    let max_column = if line + 1 < lines {
        target_len.saturating_sub(1)
    } else {
        target_len
    };
    let new_cursor = target_start + if column <= max_column {
        column
    } else {
        max_column
    };
    if extend {
        let anchor = match doc.selection_anchor {
            Some(anchor) => anchor,
            None => cursor,
        };
        doc.set_selection(anchor, new_cursor);
    } else {
        doc.cursor = new_cursor;
        doc.clear_selection();
    }
}

/// Moves the cursor one line up. Returns whether there is such a line.
pub fn move_up(doc: &mut DocumentState, extend: bool) -> (moved: bool)
    ensures
        final(doc)@ == old(doc)@.move_up(extend),
        moved == (old(doc)@.cursor_line() > 0),
{
    let len = doc.len_chars();
    let cursor = if doc.cursor <= len {
        doc.cursor
    } else {
        len
    };
    proof {
        lines_are_in_order(doc@.text, cursor as int, cursor as int);
    }
    let line = rope_char_to_line(&doc.rope, cursor);
    if line == 0 {
        return false;
    }
    move_to_line(doc, line - 1, extend);
    true
}

/// Moves the cursor one line down. Returns whether there is such a line.
pub fn move_down(doc: &mut DocumentState, extend: bool) -> (moved: bool)
    ensures
        final(doc)@ == old(doc)@.move_down(extend),
        moved == (old(doc)@.cursor_line() + 1 < line_count(old(doc)@.text)),
{
    let len = doc.len_chars();
    let cursor = if doc.cursor <= len {
        doc.cursor
    } else {
        len
    };
    proof {
        lines_are_in_order(doc@.text, cursor as int, cursor as int);
    }
    let line = rope_char_to_line(&doc.rope, cursor);
    let lines = rope_len_lines(&doc.rope);
    if line + 1 >= lines {
        return false;
    }
    move_to_line(doc, line + 1, extend);
    true
}

/// Puts the cursor at the character of a byte, or selects everything up to it.
pub fn point_at(doc: &mut DocumentState, byte: usize, extend: bool)
    ensures
        final(doc)@ == old(doc)@.point_at(byte as int, extend),
{
    let index = doc.byte_to_char(byte);
    if extend {
        let anchor = anchor_of(doc);
        doc.set_selection(anchor, index);
    } else {
        doc.set_cursor(index);
    }
}

/// The selected text, which is copied to the clipboard.
pub fn copy(doc: &DocumentState) -> (text: Option<String>)
    requires
        doc@.selection_lies_inside(),
    ensures
        text is Some == doc@.selected() is Some,
        text matches Some(text) ==> Some(text@) == doc@.selected(),
{
    match doc.selection_range() {
        Some(range) => Some(doc.slice_chars(range)),
        None => None,
    }
}

/// Takes the selected text out of the document, which goes to the clipboard.
pub fn cut(doc: &mut DocumentState) -> (text: Option<String>)
    requires
        old(doc)@.selection_lies_inside(),
    ensures
        ({
            let selected = old(doc)@.selected();
            if selected is Some && selected->0.len() > 0 {
                &&& text matches Some(text) && Some(text@) == selected
                &&& final(doc)@ == old(doc)@.begin_edit().delete_selection().commit_edit()
            } else {
                &&& text is None
                &&& final(doc)@ == old(doc)@
            }
        }),
{
    match doc.selection_range() {
        Some(range) => {
            if range.start == range.end {
                return None;
            }
            let text = doc.slice_chars(range);
            doc.begin_edit();
            doc.delete_selection();
            doc.commit_edit();
            Some(text)
        },
        None => None,
    }
}

} // verus!
