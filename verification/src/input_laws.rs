//! What text from the platform replaces, and where positions in UTF-16 code units are.
use crate::document::DocumentView;
use crate::editor::{composed_selection, target_end, target_start, EditorModel};
use crate::editor_laws::{input_is_one_edit, replacing_puts_the_text_in_place};
use crate::utf16::{
    char_at_utf16, char_at_utf16_from, char_to_utf16_and_back, chars_at_utf16, utf16_grows,
    utf16_len, utf16_of, utf16_range,
};
use std::ops::Range;
use vstd::prelude::*;

verus! {

/// A character takes up two code units if it lies behind the first 65536, and one otherwise. A
/// text takes up those of its characters.
pub proof fn code_units_add_up(text: Seq<char>, c: char)
    ensures
        utf16_len(Seq::<char>::empty()) == 0,
        c as u32 >= 0x10000 ==> utf16_len(text.push(c)) == utf16_len(text) + 2,
        (c as u32) < 0x10000 ==> utf16_len(text.push(c)) == utf16_len(text) + 1,
{
    assert(text.push(c).drop_last() =~= text);
}

/// A later offset is not in an earlier character.
proof fn offsets_keep_their_order(text: Seq<char>, first: int, second: int, from: int)
    requires
        first <= second,
        0 <= from <= text.len(),
    ensures
        from <= char_at_utf16_from(text, first, from) <= char_at_utf16_from(text, second, from),
    decreases text.len() - from,
{
    if from < text.len() && first >= utf16_len(text.take(from + 1)) {
        offsets_keep_their_order(text, first, second, from + 1);
    } else if from < text.len() {
        offset_is_not_before(text, second, from);
    }
}

proof fn offset_is_not_before(text: Seq<char>, offset: int, from: int)
    requires
        0 <= from <= text.len(),
    ensures
        from <= char_at_utf16_from(text, offset, from) <= text.len(),
    decreases text.len() - from,
{
    if from < text.len() {
        offset_is_not_before(text, offset, from + 1);
    }
}

/// The code units before one character and before another are the range of the characters
/// between them, and these are the characters of that range.
pub proof fn ranges_of_code_units_are_ranges_of_characters(text: Seq<char>, first: int, second: int)
    requires
        0 <= first <= second <= text.len() <= usize::MAX,
        utf16_len(text.take(second)) <= usize::MAX,
    ensures
        ({
            let chars = Range { start: first as usize, end: second as usize };
            let units = Range {
                start: utf16_len(text.take(first)) as usize,
                end: utf16_len(text.take(second)) as usize,
            };
            &&& utf16_range(text, chars) == units
            &&& chars_at_utf16(text, units) == chars
        }),
{
    if first < second {
        utf16_grows(text, first, second);
    }
    if first < text.len() {
        utf16_grows(text, first, first + 1);
    }
    if second < text.len() {
        utf16_grows(text, second, second + 1);
    }
    char_to_utf16_and_back(text, first, utf16_of(text, first) as int);
    char_to_utf16_and_back(text, second, utf16_of(text, second) as int);
}

/// A range that ends before it starts is empty.
pub proof fn backward_ranges_are_empty(text: Seq<char>, range: Range<usize>)
    requires
        range.end <= range.start,
        text.len() <= usize::MAX,
    ensures
        chars_at_utf16(text, range).start == chars_at_utf16(text, range).end,
        chars_at_utf16(text, range).start == char_at_utf16(text, range.start as int),
{
    offsets_keep_their_order(text, range.end as int, range.start as int, 0);
    offset_is_not_before(text, range.start as int, 0);
}

/// Behind the end of the text, code units count as its end.
pub proof fn code_units_behind_the_text_are_its_end(text: Seq<char>, offset: int)
    requires
        offset >= utf16_len(text),
    ensures
        char_at_utf16(text, offset) == text.len(),
{
    assert(text.take(text.len() as int) =~= text);
    char_to_utf16_and_back(text, text.len() as int, offset);
}

/// Input puts the text in the place of the characters of its target, with the cursor behind it
/// and nothing selected.
proof fn input_replaces_its_target(
    document: DocumentView,
    composing: bool,
    target: Range<usize>,
    text: Seq<char>,
)
    requires
        target.start <= target.end <= document.text.len(),
        document.text.len() + text.len() <= usize::MAX,
    ensures
        ({
            let after = document.input(composing, target, text);
            &&& after.text == document.text.take(target.start as int) + text + document.text.skip(
                target.end as int,
            )
            &&& after.cursor == target.start + text.len()
            &&& after.selection is None
            &&& after.selection_anchor is None
            &&& after.pending is None
        }),
{
    replacing_puts_the_text_in_place(document, !composing, target, text);
}

/// Input that names no range outside of a composition replaces what is selected, from the first
/// selected character to the last.
pub proof fn input_replaces_the_selection(
    editor: EditorModel,
    document: DocumentView,
    range: Range<usize>,
    text: Seq<char>,
)
    requires
        editor.marked_range is None,
        document.selection == Some(range),
        range.start <= range.end <= document.text.len(),
        document.text.len() + text.len() <= usize::MAX,
    ensures
        ({
            let after = document.input(
                editor.ime_edit_active,
                editor.target(document, None),
                text,
            );
            &&& after.text == document.text.take(range.start as int) + text + document.text.skip(
                range.end as int,
            )
            &&& after.cursor == range.start + text.len()
            &&& after.selection is None
        }),
{
    input_replaces_its_target(document, editor.ime_edit_active, range, text);
}

/// Input that names no range goes to the cursor where nothing is selected and there is no
/// composition, and replaces nothing.
pub proof fn input_goes_to_the_cursor(
    editor: EditorModel,
    document: DocumentView,
    text: Seq<char>,
)
    requires
        editor.marked_range is None,
        document.selection is None,
        document.cursor <= document.text.len(),
        document.text.len() + text.len() <= usize::MAX,
    ensures
        ({
            let after = document.input(
                editor.ime_edit_active,
                editor.target(document, None),
                text,
            );
            &&& after.text == document.text.take(document.cursor as int) + text
                + document.text.skip(document.cursor as int)
            &&& after.cursor == document.cursor + text.len()
            &&& after.selection is None
        }),
{
    let at = Range { start: document.cursor, end: document.cursor };
    input_replaces_its_target(document, editor.ime_edit_active, at, text);
}

/// Input that names no range replaces the text of the composition, whatever is selected.
pub proof fn input_replaces_the_composition(
    editor: EditorModel,
    document: DocumentView,
    marked: Range<usize>,
    text: Seq<char>,
)
    requires
        editor.marked_range == Some(marked),
        marked.start <= marked.end <= document.text.len(),
        document.text.len() + text.len() <= usize::MAX,
    ensures
        ({
            let after = document.input(
                editor.ime_edit_active,
                editor.target(document, None),
                text,
            );
            &&& after.text == document.text.take(marked.start as int) + text + document.text.skip(
                marked.end as int,
            )
            &&& after.cursor == marked.start + text.len()
            &&& after.selection is None
        }),
{
    input_replaces_its_target(document, editor.ime_edit_active, marked, text);
}

/// Input that names a range of code units replaces the characters between them, whatever is
/// selected or marked.
pub proof fn input_replaces_the_range_that_it_names(
    editor: EditorModel,
    document: DocumentView,
    first: int,
    second: int,
    text: Seq<char>,
)
    requires
        0 <= first <= second <= document.text.len(),
        utf16_len(document.text.take(second)) <= usize::MAX,
        document.text.len() + text.len() <= usize::MAX,
    ensures
        ({
            let units = Range {
                start: utf16_len(document.text.take(first)) as usize,
                end: utf16_len(document.text.take(second)) as usize,
            };
            let after = document.input(
                editor.ime_edit_active,
                editor.target(document, Some(units)),
                text,
            );
            &&& after.text == document.text.take(first) + text + document.text.skip(second)
            &&& after.cursor == first + text.len()
            &&& after.selection is None
        }),
{
    ranges_of_code_units_are_ranges_of_characters(document.text, first, second);
    let chars = Range { start: first as usize, end: second as usize };
    input_replaces_its_target(document, editor.ime_edit_active, chars, text);
}

/// A step of a composition goes where the same input would go, so that the text of the step
/// before is replaced, and leaves the edit open.
pub proof fn a_step_goes_where_input_goes(
    editor: EditorModel,
    document: DocumentView,
    range_utf16: Option<Range<usize>>,
    text: Seq<char>,
    selected_utf16: Option<Range<usize>>,
)
    requires
        document.text.len() + text.len() <= usize::MAX,
    ensures
        ({
            let target = editor.target(document, range_utf16);
            let step = document.compose(editor.ime_edit_active, target, text, selected_utf16);
            let input = document.input(editor.ime_edit_active, target, text);
            &&& step.text == input.text
            &&& step.history == document.history
            &&& !editor.ime_edit_active ==> step.pending is Some
        }),
{
}

/// The text of a step is marked where it stands, and a following step that names no range
/// replaces just that text.
pub proof fn steps_replace_each_other(
    editor: EditorModel,
    document: DocumentView,
    target: Range<usize>,
    first: Seq<char>,
    second: Seq<char>,
    selected_utf16: Option<Range<usize>>,
)
    requires
        target.start <= target.end <= document.text.len(),
        document.text.len() + first.len() + second.len() <= usize::MAX,
        editor.marked_range == Some(
            Range { start: target.start, end: (target.start + first.len()) as usize },
        ),
        editor.ime_edit_active,
    ensures
        ({
            let begun = document.compose(false, target, first, selected_utf16);
            let then = begun.compose(true, editor.target(begun, None), second, selected_utf16);
            let ended = begun.input(true, editor.target(begun, None), second);
            let text = document.text.take(target.start as int) + second + document.text.skip(
                target.end as int,
            );
            &&& begun.text.subrange(target.start as int, target.start + first.len()) == first
            &&& then.text == text
            &&& ended.text == text
            &&& ended.cursor == target.start + second.len()
        }),
{
    let begun = document.compose(false, target, first, selected_utf16);
    let marked = editor.marked_range->0;
    let start = target.start as int;
    replacing_puts_the_text_in_place(document, true, target, first);
    assert(begun.text.subrange(start, start + first.len()) =~= first);
    replacing_puts_the_text_in_place(begun, false, marked, second);
    assert(begun.text.take(start) =~= document.text.take(start));
    assert(begun.text.skip(start + first.len()) =~= document.text.skip(target.end as int));
}

/// In a step of a composition the platform says what is selected in its text, in code units. If
/// it does not, the cursor is behind the text.
pub proof fn a_step_selects_in_its_text(
    document: DocumentView,
    composing: bool,
    target: Range<usize>,
    text: Seq<char>,
    first: int,
    second: int,
)
    requires
        target.start <= target.end <= document.text.len(),
        document.text.len() + text.len() <= usize::MAX,
        0 <= first <= second <= text.len(),
        utf16_len(text.take(second)) <= usize::MAX,
    ensures
        ({
            let units = Range {
                start: utf16_len(text.take(first)) as usize,
                end: utf16_len(text.take(second)) as usize,
            };
            let silent = document.compose(composing, target, text, None);
            let step = document.compose(composing, target, text, Some(units));
            &&& silent.cursor == target.start + text.len()
            &&& silent.selection is None
            &&& step.cursor == target.start + second
            &&& first == second ==> step.selection is None
            &&& first < second ==> (step.selection matches Some(range) && range.start
                == target.start + first && range.end == target.start + second)
        }),
{
    ranges_of_code_units_are_ranges_of_characters(text, first, second);
    replacing_puts_the_text_in_place(document, !composing, target, text);
}

/// A range that the platform names holds the characters of the document that its code units
/// hold, and one that it selects in a step those of the step's text.
pub proof fn ranges_are_of_the_text_they_name(
    editor: EditorModel,
    document: DocumentView,
    text: Seq<char>,
    range: Range<usize>,
)
    ensures
        editor.target(document, Some(range)) == chars_at_utf16(document.text, range),
        composed_selection(text, Some(range)) == chars_at_utf16(text, range),
{
}

/// What lies behind the text of a target does not count, and a target that ends before it starts
/// is empty.
pub proof fn targets_lie_in_the_text(target: Range<usize>, len: int)
    requires
        0 <= len,
    ensures
        0 <= target_start(target, len) <= target_end(target, len) <= len,
        target.start <= target.end <= len ==> target_start(target, len) == target.start
            && target_end(target, len) == target.end,
        target.start > len ==> target_start(target, len) == len,
        target.start <= len < target.end ==> target_end(target, len) == len,
        target.end <= target.start ==> target_start(target, len) == target_end(target, len),
{
}

/// Outside of a composition nothing is marked, and nothing else has changed.
pub proof fn a_composition_ends(editor: EditorModel)
    ensures
        !editor.uncomposed().ime_edit_active,
        editor.uncomposed().marked_range is None,
        editor.uncomposed().search_query == editor.search_query,
        editor.uncomposed().search_active == editor.search_active,
        editor.uncomposed().caret_visible == editor.caret_visible,
        editor.uncomposed().cached_text == editor.cached_text,
{
}

/// Input that replaces a selection is one edit, which undo takes back.
pub proof fn undo_takes_input_back(editor: EditorModel, document: DocumentView, text: Seq<char>)
    requires
        document.consistent(),
        !document.has_pending_changes(),
        !editor.ime_edit_active,
        document.text.len() + text.len() <= usize::MAX,
    ensures
        ({
            let after = document.input(false, editor.target(document, None), text);
            &&& after.consistent()
            &&& after.text != document.text ==> after.undo().text == document.text
        }),
{
    input_is_one_edit(
        document,
        document.text,
        false,
        editor.target(document, None),
        text,
    );
}

} // verus!
