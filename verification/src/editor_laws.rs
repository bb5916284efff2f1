//! What holds of the editor and its document over more than one step.
use crate::commands::{lines_are_in_order, place_in_line_lies_inside};
use crate::document::{byte_range, DocumentView};
use crate::document_laws::{
    beginning_an_edit, byte_to_char_and_back, char_of_lies_inside,
    characters_keep_the_order_of_bytes, committing_an_edit, deleting_in_an_edit, deleting_the_selection_in_an_edit,
    inserting_in_an_edit, undo_takes_an_edit_back_and_redo_makes_it_again,
};
use crate::editor::{composed_selection, target_end, target_start, EditorModel};
use crate::editor_keys::EditorKey;
use crate::rope::line_count;
use crate::search::{all_matches, no_match_is_missed};
use crate::text::encode_utf8_of_push;
use crate::undo::{clamped, cut, spliced};
use std::ops::Range;
use vstd::prelude::*;
use vstd::utf8::encode_utf8;

verus! {

/// Committing an edit that was recorded from a text makes it one step of the history, which
/// undo takes back as a whole.
pub proof fn an_edit_is_one_step(document: DocumentView, base: Seq<char>)
    requires
        document.consistent(),
        document.records_from(base),
    ensures
        document.commit_edit().consistent(),
        !document.commit_edit().has_pending_changes(),
        document.commit_edit().text == document.text,
        document.has_pending_changes() ==> document.commit_edit().history.undo.len()
            == document.history.undo.len() + 1 && document.commit_edit().undo().text == base,
        !document.has_pending_changes() ==> document.text == base
            && document.commit_edit().history == document.history,
{
    committing_an_edit(document);
    if document.has_pending_changes() {
        undo_takes_an_edit_back_and_redo_makes_it_again(document);
    }
}

/// Replacing puts the text in the place of the target.
pub proof fn replacing_puts_the_text_in_place(
    document: DocumentView,
    begin: bool,
    target: Range<usize>,
    text: Seq<char>,
)
    ensures
        document.replace(begin, target, text).text == document.text.take(
            target_start(target, document.len()),
        ) + text + document.text.skip(target_end(target, document.len())),
{
    let start = target_start(target, document.len());
    let end = target_end(target, document.len());
    let removed = cut(document.text, start, end);
    if start < end {
        assert(removed.take(start) =~= document.text.take(start));
        assert(removed.skip(start) =~= document.text.skip(end));
        assert(document.text.take(start) + Seq::<char>::empty() + document.text.skip(end)
            =~= removed);
    } else {
        assert(document.text.take(start) + Seq::<char>::empty() + document.text.skip(end)
            =~= document.text);
    }
    assert(spliced(removed, start, text) =~= removed.take(start) + text + removed.skip(start));
    assert(text.len() == 0 ==> text =~= Seq::<char>::empty());
}

/// Replacing in an edit keeps a document consistent, and the edit still starts from the same
/// text.
proof fn replacing_in_an_edit(
    document: DocumentView,
    base: Seq<char>,
    begin: bool,
    target: Range<usize>,
    text: Seq<char>,
)
    requires
        document.consistent(),
        begin ==> !document.has_pending_changes() && base == document.text,
        !begin ==> document.records_from(base),
        document.text.len() + text.len() <= usize::MAX,
    ensures
        document.replace(begin, target, text).consistent(),
        document.replace(begin, target, text).records_from(base),
        document.replace(begin, target, text).history == document.history,
{
    let begun = if begin {
        beginning_an_edit(document);
        document.begin_edit()
    } else {
        document
    };
    let start = target_start(target, document.len());
    let end = target_end(target, document.len());
    deleting_in_an_edit(begun, base, start, end);
    let removed = if start < end {
        begun.delete_range(start, end)
    } else {
        begun
    };
    inserting_in_an_edit(removed, base, start, text);
}

/// Text that the platform puts in replaces its target, with the cursor behind it. Undo takes
/// it back, together with the composition that it ends.
pub proof fn input_is_one_edit(
    document: DocumentView,
    base: Seq<char>,
    composing: bool,
    target: Range<usize>,
    text: Seq<char>,
)
    requires
        document.consistent(),
        composing ==> document.records_from(base),
        !composing ==> !document.has_pending_changes() && base == document.text,
        document.text.len() + text.len() <= usize::MAX,
    ensures
        ({
            let after = document.input(composing, target, text);
            let start = target_start(target, document.len());
            &&& after.consistent()
            &&& !after.has_pending_changes()
            &&& after.text == document.text.take(start) + text + document.text.skip(
                target_end(target, document.len()),
            )
            &&& after.cursor == start + text.len()
            &&& after.text != base ==> after.history.undo.len() == document.history.undo.len() + 1
            &&& after.history.undo.len() == document.history.undo.len() + 1 ==> after.undo().text
                == base
        }),
{
    let start = target_start(target, document.len());
    let replaced = document.replace(!composing, target, text);
    replacing_in_an_edit(document, base, !composing, target, text);
    replacing_puts_the_text_in_place(document, !composing, target, text);
    let placed = replaced.set_cursor(start + text.len());
    assert(placed.consistent());
    assert(placed.records_from(base));
    an_edit_is_one_step(placed, base);
}

/// Selecting in a text that was put in leaves the recorded edit as it is.
proof fn selecting_in_an_edit(
    document: DocumentView,
    base: Seq<char>,
    start: int,
    count: int,
    part: Range<usize>,
)
    requires
        document.consistent(),
        document.records_from(base),
        0 <= start,
        0 <= count,
    ensures
        document.select_in(start, count, part).consistent(),
        document.select_in(start, count, part).records_from(base),
        document.select_in(start, count, part).text == document.text,
        document.select_in(start, count, part).history == document.history,
{
}

/// A step of a composition replaces its target and leaves the edit open: however many steps
/// there are, it still starts from the text before the composition.
pub proof fn composition_is_one_edit(
    document: DocumentView,
    base: Seq<char>,
    composing: bool,
    target: Range<usize>,
    text: Seq<char>,
    selected_utf16: Option<Range<usize>>,
)
    requires
        document.consistent(),
        composing ==> document.records_from(base),
        !composing ==> !document.has_pending_changes() && base == document.text,
        document.text.len() + text.len() <= usize::MAX,
    ensures
        ({
            let after = document.compose(composing, target, text, selected_utf16);
            &&& after.consistent()
            &&& after.records_from(base)
            &&& after.text == document.text.take(target_start(target, document.len())) + text
                + document.text.skip(target_end(target, document.len()))
            &&& after.history == document.history
        }),
{
    replacing_in_an_edit(document, base, !composing, target, text);
    replacing_puts_the_text_in_place(document, !composing, target, text);
    selecting_in_an_edit(
        document.replace(!composing, target, text),
        base,
        target_start(target, document.len()),
        text.len() as int,
        composed_selection(text, selected_utf16),
    );
}

/// Typing or pasting replaces what is selected, with the cursor behind the text, and undo takes
/// it back.
pub proof fn typing_is_one_edit(document: DocumentView, text: Seq<char>)
    requires
        document.consistent(),
        !document.has_pending_changes(),
        document.text.len() + text.len() <= usize::MAX,
    ensures
        ({
            let after = document.type_text(text);
            let target = match document.selection {
                Some(range) => range,
                None => Range { start: document.cursor, end: document.cursor },
            };
            &&& after.consistent()
            &&& !after.has_pending_changes()
            &&& after.text == document.text.take(target.start as int) + text + document.text.skip(
                target.end as int,
            )
            &&& after.cursor == target.start + text.len()
            &&& after.text != document.text ==> after.undo().text == document.text
        }),
{
    beginning_an_edit(document);
    let begun = document.begin_edit();
    deleting_the_selection_in_an_edit(begun, document.text);
    let cleared = begun.delete_selection();
    inserting_in_an_edit(cleared, document.text, cleared.cursor as int, text);
    let typed = cleared.insert(cleared.cursor as int, text).place_cursor(
        cleared.cursor + text.len(),
    );
    an_edit_is_one_step(typed, document.text);
    match document.selection {
        Some(range) => {
            let start = range.start as int;
            let end = range.end as int;
            let removed = cut(document.text, start, end);
            assert(removed.take(start) =~= document.text.take(start));
            assert(removed.skip(start) =~= document.text.skip(end));
        },
        None => {},
    }
    assert(document.type_text(text) == typed.commit_edit());
}

/// What is selected in a consistent document lies in its text, so that it can be cut, copied
/// and searched for.
pub proof fn selections_lie_inside(document: DocumentView, editor: EditorModel)
    requires
        document.consistent(),
    ensures
        document.selection_lies_inside(),
        editor.can_seed(document),
{
}

/// Pointing keeps a document consistent and its text as it is.
pub proof fn pointing_keeps_consistency(document: DocumentView, byte: int, extend: bool)
    requires
        document.consistent(),
    ensures
        document.point_at(byte, extend).consistent(),
        document.point_at(byte, extend).text == document.text,
        document.point_at(byte, extend).history == document.history,
{
    char_of_lies_inside(document.text, byte);
}

/// Cutting takes out what is selected, and undo gives it back.
pub proof fn cutting_is_one_edit(document: DocumentView, range: Range<usize>)
    requires
        document.consistent(),
        !document.has_pending_changes(),
        document.selection == Some(range),
    ensures
        ({
            let after = document.begin_edit().delete_selection().commit_edit();
            &&& after.consistent()
            &&& !after.has_pending_changes()
            &&& after.text == cut(document.text, range.start as int, range.end as int)
            &&& after.cursor == range.start
            &&& after.undo().text == document.text
            &&& after.undo().selection == document.selection
        }),
{
    beginning_an_edit(document);
    let begun = document.begin_edit();
    deleting_the_selection_in_an_edit(begun, document.text);
    let removed = begun.delete_selection();
    an_edit_is_one_step(removed, document.text);
    undo_takes_an_edit_back_and_redo_makes_it_again(removed);
}

/// Moving to another line keeps a document consistent.
proof fn moving_to_a_line(document: DocumentView, line: int, extend: bool)
    requires
        document.consistent(),
        !document.has_pending_changes(),
    ensures
        document.move_to_line(line, extend).consistent(),
        document.move_to_line(line, extend).text == document.text,
        !document.move_to_line(line, extend).has_pending_changes(),
{
    place_in_line_lies_inside(
        document.text,
        clamped(document.cursor as int, document.len()),
        line,
    );
}

/// Every key of the editor keeps a document consistent, and undo takes back what it changed.
pub proof fn keys_keep_consistency(document: DocumentView, key: EditorKey, shift: bool)
    requires
        document.consistent(),
        !document.has_pending_changes(),
        document.text.len() < usize::MAX,
    ensures
        document.keyed(key, shift).consistent(),
        !document.keyed(key, shift).has_pending_changes(),
        document.keyed(key, shift).text != document.text ==> document.keyed(key, shift).undo().text
            == document.text,
{
    match key {
        EditorKey::Backspace | EditorKey::Delete => {
            beginning_an_edit(document);
            let begun = document.begin_edit();
            if document.selection is Some {
                deleting_the_selection_in_an_edit(begun, document.text);
                an_edit_is_one_step(begun.delete_selection(), document.text);
            } else if key == EditorKey::Backspace && document.cursor > 0 {
                let at = document.cursor - 1;
                deleting_in_an_edit(begun, document.text, at, at + 1);
                an_edit_is_one_step(
                    begun.delete_range(at, at + 1).place_cursor(at),
                    document.text,
                );
            } else if key == EditorKey::Delete && document.cursor < document.len() {
                let at = document.cursor as int;
                deleting_in_an_edit(begun, document.text, at, at + 1);
                an_edit_is_one_step(begun.delete_range(at, at + 1), document.text);
            }
        },
        EditorKey::Enter => {
            typing_is_one_edit(document, seq!['\n']);
        },
        EditorKey::Up => {
            if document.cursor_line() > 0 {
                moving_to_a_line(document, document.cursor_line() - 1, shift);
            }
        },
        EditorKey::Down => {
            if document.cursor_line() + 1 < line_count(document.text) {
                lines_are_in_order(document.text, document.cursor as int, document.cursor as int);
                moving_to_a_line(document, document.cursor_line() + 1, shift);
            }
        },
        _ => {},
    }
}

/// Going to a match selects the bytes at which the query was found.
pub proof fn the_match_is_selected(editor: EditorModel, doc: DocumentView)
    requires
        editor.coherent(doc),
        editor.finds(doc),
        encode_utf8(doc.text).len() <= usize::MAX,
        doc.text.len() <= usize::MAX,
    ensures
        ({
            let matches = all_matches(doc.text, editor.search_query);
            let number = editor.match_number(matches.len() as int);
            &&& 0 <= number < matches.len()
            &&& editor.select_match(doc).1.selection matches Some(range) && byte_range(
                doc.text,
                range,
            ) == matches[number]
        }),
{
    let matches = all_matches(doc.text, editor.search_query);
    let number = editor.match_number(matches.len() as int);
    let range = matches[number];
    first_byte(editor.search_query);
    no_match_is_missed(doc.text, editor.search_query);
    assert(matches[number] == range);
    byte_to_char_and_back(doc.text, range.start as int);
    byte_to_char_and_back(doc.text, range.end as int);
    characters_keep_the_order_of_bytes(doc.text, range.start as int, range.end as int);
}

/// A text that is not empty has bytes.
proof fn first_byte(text: Seq<char>)
    requires
        text.len() > 0,
    ensures
        encode_utf8(text).len() > 0,
{
    encode_utf8_of_push(text.drop_last(), text.last());
    assert(text.drop_last().push(text.last()) =~= text);
}

/// Going to the next match and back again ends at the match where it began.
pub proof fn forward_and_back(editor: EditorModel, count: int)
    requires
        editor.search_current_match < count,
    ensures
        ({
            let next = editor.next_match(count, true);
            let previous = editor.next_match(count, false);
            &&& 0 <= next < count
            &&& 0 <= previous < count
            &&& next != 0 ==> next - 1 == editor.search_current_match
            &&& next == 0 ==> count - 1 == editor.search_current_match
            &&& (previous + 1) % count == editor.search_current_match
        }),
{
    let current = editor.search_current_match as int;
    if current + 1 < count {
        vstd::arithmetic::div_mod::lemma_small_mod((current + 1) as nat, count as nat);
    } else {
        vstd::arithmetic::div_mod::lemma_mod_self_0(count);
    }
    vstd::arithmetic::div_mod::lemma_small_mod(current as nat, count as nat);
    if current == 0 {
        vstd::arithmetic::div_mod::lemma_mod_self_0(count);
    }
}

} // verus!
