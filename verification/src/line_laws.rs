//! What moving up and down does to the cursor.
use crate::commands::{lines_are_in_order, place_in_line_lies_inside};
use crate::document::DocumentView;
use crate::editor_keys::EditorKey;
use crate::rope::{line_count, line_of, line_start, line_start_from};
use vstd::prelude::*;

verus! {

/// A line that is there starts at its first character: the characters before it are of earlier
/// lines.
proof fn a_line_starts_with_its_first_character(text: Seq<char>, line: int, index: int)
    requires
        0 <= index <= text.len(),
        line <= line_of(text, text.len() as int),
    ensures
        index <= line_start_from(text, line, index) <= text.len(),
        line_of(text, line_start_from(text, line, index)) >= line,
        forall|i: int|
            index <= i < line_start_from(text, line, index) ==> #[trigger] line_of(text, i) < line,
    decreases text.len() - index,
{
    if index < text.len() && line_of(text, index) < line {
        a_line_starts_with_its_first_character(text, line, index + 1);
    }
}

/// A character is of the line that starts at it or before it, and of none that starts behind it.
pub proof fn characters_are_of_the_line_they_stand_in(text: Seq<char>, line: int, index: int)
    requires
        0 <= line < line_count(text),
        0 <= index <= text.len(),
    ensures
        0 <= line_start(text, line) <= text.len(),
        line_of(text, line_start(text, line)) == line,
        line_start(text, line) <= index <==> line <= line_of(text, index),
{
    a_line_starts_with_its_first_character(text, line, 0);
    let start = line_start(text, line);
    if start > 0 {
        assert(line_of(text, start - 1) < line);
    }
    if start <= index {
        lines_are_in_order(text, start, index);
    } else {
        assert(line_of(text, index) < line);
    }
}

/// One past the last line, lines start at the end of the text.
proof fn no_line_starts_behind_the_last(text: Seq<char>, line: int, index: int)
    requires
        0 <= index <= text.len(),
        line >= line_count(text),
    ensures
        line_start_from(text, line, index) == text.len(),
    decreases text.len() - index,
{
    if index < text.len() {
        lines_are_in_order(text, index, index);
        no_line_starts_behind_the_last(text, line, index + 1);
    }
}

/// A cursor that moves to another line is in that line then, in the column where it was. If the
/// line is too short for that, it is at the end of the line, before its break.
pub proof fn the_cursor_keeps_its_column(document: DocumentView, line: int)
    requires
        document.in_bounds(),
        0 <= line < line_count(document.text),
    ensures
        ({
            let text = document.text;
            let after = document.move_to_line(line, false);
            let column = document.cursor - line_start(text, line_of(text, document.cursor as int));
            let start = line_start(text, line);
            let end = line_start(text, line + 1);
            &&& 0 <= column
            &&& after.text == text
            &&& after.selection is None
            &&& after.selection_anchor is None
            &&& after.history == document.history
            &&& line_of(text, after.cursor as int) == line
            &&& after.cursor - start <= column
            &&& start + column < end ==> after.cursor == start + column
            &&& line + 1 < line_count(text) && start + column >= end ==> after.cursor == end - 1
            &&& line + 1 == line_count(text) && start + column >= end ==> after.cursor
                == text.len()
        }),
{
    let text = document.text;
    let cursor = document.cursor as int;
    lines_are_in_order(text, cursor, cursor);
    characters_are_of_the_line_they_stand_in(text, line_of(text, cursor), cursor);
    place_in_line_lies_inside(text, cursor, line);
    let place = document.move_to_line(line, false).cursor as int;
    characters_are_of_the_line_they_stand_in(text, line, place);
    if line + 1 < line_count(text) {
        characters_are_of_the_line_they_stand_in(text, line + 1, place);
        characters_are_of_the_line_they_stand_in(text, line + 1, line_start(text, line));
    } else {
        no_line_starts_behind_the_last(text, line + 1, 0);
        lines_are_in_order(text, place, place);
    }
}

/// Moving up and down goes to the line above and below, if there is one, and nowhere otherwise.
pub proof fn up_and_down_go_to_the_next_lines(document: DocumentView)
    requires
        document.in_bounds(),
    ensures
        ({
            let text = document.text;
            let line = line_of(text, document.cursor as int);
            let up = document.move_up(false);
            let down = document.move_down(false);
            &&& line == 0 ==> up == document && document.move_up(true) == document
            &&& line > 0 ==> line_of(text, up.cursor as int) == line - 1
            &&& line > 0 ==> up == document.move_to_line(line - 1, false)
            &&& line > 0 ==> document.move_up(true) == document.move_to_line(line - 1, true)
            &&& line + 1 == line_count(text) ==> down == document && document.move_down(true)
                == document
            &&& line + 1 < line_count(text) ==> line_of(text, down.cursor as int) == line + 1
            &&& line + 1 < line_count(text) ==> down == document.move_to_line(line + 1, false)
            &&& line + 1 < line_count(text) ==> document.move_down(true)
                == document.move_to_line(line + 1, true)
            &&& document.answers(EditorKey::Up) <==> line > 0
            &&& document.answers(EditorKey::Down) <==> line + 1 < line_count(text)
        }),
{
    let text = document.text;
    let cursor = document.cursor as int;
    lines_are_in_order(text, cursor, cursor);
    let line = line_of(text, cursor);
    if line > 0 {
        the_cursor_keeps_its_column(document, line - 1);
    }
    if line + 1 < line_count(text) {
        the_cursor_keeps_its_column(document, line + 1);
    }
}

/// With shift, moving to another line goes to the same place and selects from the anchor to
/// there. The anchor is the one of the selection, or where the cursor was.
pub proof fn moving_to_a_line_extends_the_selection(document: DocumentView, line: int)
    requires
        document.in_bounds(),
        0 <= line < line_count(document.text),
    ensures
        ({
            let place = document.move_to_line(line, false).cursor;
            let after = document.move_to_line(line, true);
            let anchor = match document.selection_anchor {
                Some(anchor) => anchor,
                None => document.cursor,
            };
            &&& after.cursor == place
            &&& after.selection_anchor == Some(anchor)
            &&& after.selection is None <==> anchor == place
            &&& after.selection matches Some(range) ==> range.start == anchor && range.end
                == place || range.start == place && range.end == anchor
            &&& after.selection matches Some(range) ==> range.start < range.end
            &&& after.text == document.text
            &&& after.history == document.history
        }),
{
    place_in_line_lies_inside(document.text, document.cursor as int, line);
}

} // verus!
