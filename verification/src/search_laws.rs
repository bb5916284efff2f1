//! What the find panel finds, where it goes, and what the keys do in it.
use crate::document::DocumentView;
use crate::document::byte_range;
use crate::editor::{new_editor, EditorModel};
use crate::editor_keys::{named_key, EditorKey, KeyOutcome};
use crate::editor_laws::the_match_is_selected;
use crate::search::{all_matches, covers, fold, matches_at, no_match_is_missed};
use crate::text::{encode_utf8_of_push, is_white_space};
use std::ops::Range;
use vstd::prelude::*;
use vstd::utf8::{encode_utf8, is_char_boundary};

verus! {

/// Two bytes are the same letter in upper and lower case, or the same byte.
pub open spec fn same_ignoring_case(a: u8, b: u8) -> bool {
    ||| a == b
    ||| 0x41 <= a <= 0x5a && b == a + 0x20
    ||| 0x41 <= b <= 0x5a && a == b + 0x20
}

/// A text occurs at a byte of another: every byte of it is there, whatever the case of ASCII
/// letters, and it does not begin or end within a character.
pub open spec fn occurs_at(text: Seq<char>, needle: Seq<char>, start: int) -> bool {
    let hay = encode_utf8(text);
    let wanted = encode_utf8(needle);
    &&& 0 <= start
    &&& start + wanted.len() <= hay.len()
    &&& is_char_boundary(hay, start)
    &&& is_char_boundary(hay, start + wanted.len())
    &&& forall|i: int|
        0 <= i < wanted.len() ==> same_ignoring_case(#[trigger] hay[start + i], wanted[i])
}

/// A text that is not empty has bytes.
proof fn a_query_has_bytes(text: Seq<char>)
    requires
        text.len() > 0,
    ensures
        encode_utf8(text).len() > 0,
{
    encode_utf8_of_push(text.drop_last(), text.last());
    assert(text.drop_last().push(text.last()) =~= text);
}

/// Bytes are folded together exactly if they are the same but for the case of an ASCII letter.
pub proof fn folding_ignores_the_case_of_letters(a: u8, b: u8)
    ensures
        fold(a) == fold(b) <==> same_ignoring_case(a, b),
{
}

proof fn matches_are_occurrences(text: Seq<char>, needle: Seq<char>, start: int)
    ensures
        matches_at(encode_utf8(text), encode_utf8(needle), start) <==> occurs_at(
            text,
            needle,
            start,
        ),
{
    let hay = encode_utf8(text);
    let wanted = encode_utf8(needle);
    if matches_at(hay, wanted, start) {
        assert forall|i: int| 0 <= i < wanted.len() implies same_ignoring_case(
            #[trigger] hay[start + i],
            wanted[i],
        ) by {
            folding_ignores_the_case_of_letters(hay[start + i], wanted[i]);
        }
    }
    if occurs_at(text, needle, start) {
        assert forall|i: int| 0 <= i < wanted.len() implies fold(#[trigger] hay[start + i]) == fold(
            wanted[i],
        ) by {
            folding_ignores_the_case_of_letters(hay[start + i], wanted[i]);
        }
    }
}

/// Every match is an occurrence of the query, as long as the query and behind the match before
/// it, and every occurrence that is no match begins within one.
pub proof fn matches_are_the_occurrences_from_left_to_right(text: Seq<char>, needle: Seq<char>)
    requires
        encode_utf8(text).len() <= usize::MAX,
        needle.len() > 0,
    ensures
        forall|k: int|
            #![trigger all_matches(text, needle)[k]]
            0 <= k < all_matches(text, needle).len() ==> {
                let range = all_matches(text, needle)[k];
                &&& occurs_at(text, needle, range.start as int)
                &&& range.end == range.start + encode_utf8(needle).len()
            },
        forall|j: int, k: int|
            #![trigger all_matches(text, needle)[j], all_matches(text, needle)[k]]
            0 <= j < k < all_matches(text, needle).len() ==> all_matches(text, needle)[j].end
                <= all_matches(text, needle)[k].start,
        forall|at: int| #[trigger]
            occurs_at(text, needle, at) ==> exists|k: int|
                #![trigger all_matches(text, needle)[k]]
                0 <= k < all_matches(text, needle).len() && all_matches(text, needle)[k].start
                    <= at < all_matches(text, needle)[k].end,
{
    let matches = all_matches(text, needle);
    a_query_has_bytes(needle);
    no_match_is_missed(text, needle);
    assert forall|k: int| #![trigger matches[k]] 0 <= k < matches.len() implies {
        &&& occurs_at(text, needle, matches[k].start as int)
        &&& matches[k].end == matches[k].start + encode_utf8(needle).len()
    } by {
        matches_are_occurrences(text, needle, matches[k].start as int);
    }
    assert forall|at: int| #[trigger] occurs_at(text, needle, at) implies exists|k: int|
        #![trigger matches[k]]
        0 <= k < matches.len() && matches[k].start <= at < matches[k].end by {
        matches_are_occurrences(text, needle, at);
        assert(covers(matches, at));
    }
}

/// Nothing is found for an empty query.
pub proof fn an_empty_query_has_no_matches(text: Seq<char>)
    ensures
        all_matches(text, Seq::empty()).len() == 0,
{
    assert(encode_utf8(Seq::<char>::empty()).len() == 0);
}

/// The document shows a match: it is what is selected, with the cursor behind it, and the text
/// has not changed.
pub open spec fn shows_match(after: DocumentView, before: DocumentView, range: Range<usize>) -> bool {
    &&& after.text == before.text
    &&& after.history == before.history
    &&& after.dirty == before.dirty
    &&& after.selection matches Some(selected) && {
        &&& selected.start < selected.end <= before.text.len()
        &&& encode_utf8(before.text.take(selected.start as int)).len() == range.start
        &&& encode_utf8(before.text.take(selected.end as int)).len() == range.end
        &&& after.cursor == selected.end
    }
}

/// Selecting the current match selects the one with the current number, or the first one where
/// there are not that many.
pub proof fn the_current_match_is_shown(editor: EditorModel, doc: DocumentView)
    requires
        editor.coherent(doc),
        editor.search_query.len() > 0,
        all_matches(doc.text, editor.search_query).len() > 0,
        encode_utf8(doc.text).len() <= usize::MAX,
        doc.text.len() <= usize::MAX,
    ensures
        ({
            let matches = all_matches(doc.text, editor.search_query);
            let (after, shown) = editor.select_match(doc);
            &&& editor.search_current_match < matches.len() ==> after.search_current_match
                == editor.search_current_match
            &&& editor.search_current_match >= matches.len() ==> after.search_current_match == 0
            &&& after.search_current_match < matches.len()
            &&& shows_match(shown, doc, matches[after.search_current_match as int])
            &&& after.pending_scroll_to_byte == Some(
                matches[after.search_current_match as int].start,
            )
            &&& after.search_query == editor.search_query
            &&& after.search_active == editor.search_active
        }),
{
    let matches = all_matches(doc.text, editor.search_query);
    let (after, shown) = editor.select_match(doc);
    the_match_is_selected(editor, doc);
    matches_are_the_occurrences_from_left_to_right(doc.text, editor.search_query);
    a_query_has_bytes(editor.search_query);
    let range = matches[after.search_current_match as int];
    let selected = shown.selection->0;
    assert(byte_range(doc.text, selected) == range);
    crate::document_laws::byte_to_char_and_back(doc.text, range.start as int);
    crate::document_laws::byte_to_char_and_back(doc.text, range.end as int);
    crate::document_laws::characters_keep_the_order_of_bytes(
        doc.text,
        range.start as int,
        range.end as int,
    );
}

/// Jumping forward goes to the match behind the current one, and from the last one to the first.
/// Jumping back goes to the match before the current one, and from the first one to the last.
/// The match is selected then.
pub proof fn jumping_goes_to_the_next_match(editor: EditorModel, doc: DocumentView, forward: bool)
    requires
        editor.coherent(doc),
        editor.search_query.len() > 0,
        editor.search_current_match < all_matches(doc.text, editor.search_query).len(),
        encode_utf8(doc.text).len() <= usize::MAX,
        doc.text.len() <= usize::MAX,
        all_matches(doc.text, editor.search_query).len() <= usize::MAX,
    ensures
        ({
            let matches = all_matches(doc.text, editor.search_query);
            let current = editor.search_current_match as int;
            let last = matches.len() - 1;
            let (after, shown) = editor.jump(doc, forward);
            let number = after.search_current_match as int;
            &&& forward && current < last ==> number == current + 1
            &&& forward && current == last ==> number == 0
            &&& !forward && current > 0 ==> number == current - 1
            &&& !forward && current == 0 ==> number == last
            &&& shows_match(shown, doc, matches[number])
            &&& after.pending_scroll_to_byte == Some(matches[number].start)
            &&& after.search_query == editor.search_query
            &&& after.search_active == editor.search_active
        }),
{
    let matches = all_matches(doc.text, editor.search_query);
    let count = matches.len() as int;
    let current = editor.search_current_match as int;
    if current + 1 < count {
        vstd::arithmetic::div_mod::lemma_small_mod((current + 1) as nat, count as nat);
    } else {
        vstd::arithmetic::div_mod::lemma_mod_self_0(count);
    }
    let next = EditorModel {
        search_current_match: editor.next_match(count, forward) as usize,
        ..editor.searched(doc)
    };
    the_current_match_is_shown(next, doc);
}

/// A current match that is no longer there is counted on as if the matches went round: forward
/// from it as many as there are in a round make no difference, and back from it the first match
/// is shown unless the one before it is there.
pub proof fn jumping_goes_round(editor: EditorModel, doc: DocumentView, forward: bool) -> (rounds:
    int)
    requires
        editor.coherent(doc),
        editor.search_query.len() > 0,
        all_matches(doc.text, editor.search_query).len() > 0,
        editor.search_current_match < usize::MAX,
        encode_utf8(doc.text).len() <= usize::MAX,
        doc.text.len() <= usize::MAX,
        all_matches(doc.text, editor.search_query).len() <= usize::MAX,
    ensures
        ({
            let matches = all_matches(doc.text, editor.search_query);
            let current = editor.search_current_match as int;
            let (after, shown) = editor.jump(doc, forward);
            let number = after.search_current_match as int;
            &&& 0 <= number < matches.len()
            &&& forward ==> current + 1 == rounds * matches.len() + number
            &&& !forward && current > matches.len() ==> number == 0
            &&& !forward && 0 < current <= matches.len() ==> number == current - 1
            &&& !forward && current == 0 ==> number == matches.len() - 1
            &&& shows_match(shown, doc, matches[number])
        }),
{
    let matches = all_matches(doc.text, editor.search_query);
    let count = matches.len() as int;
    let current = editor.search_current_match as int;
    vstd::arithmetic::div_mod::lemma_fundamental_div_mod(current + 1, count);
    vstd::arithmetic::div_mod::lemma_mod_bound(current + 1, count);
    let next = EditorModel {
        search_current_match: editor.next_match(count, forward) as usize,
        ..editor.searched(doc)
    };
    the_current_match_is_shown(next, doc);
    assert(count * ((current + 1) / count) == ((current + 1) / count) * count)
        by (nonlinear_arith);
    (current + 1) / count
}

/// Without a query or a match, the document stays as it is.
pub proof fn nothing_is_shown_without_a_match(
    editor: EditorModel,
    doc: DocumentView,
    forward: bool,
)
    requires
        editor.coherent(doc),
        editor.search_query.len() == 0 || all_matches(doc.text, editor.search_query).len() == 0,
    ensures
        editor.select_match(doc).1 == doc,
        editor.jump(doc, forward).1 == doc,
        editor.jump(doc, forward).0.search_current_match == editor.search_current_match,
        !editor.finds(doc),
{
}

/// There is a match to go to exactly if the query is not empty and occurs in the text.
pub proof fn a_match_is_found_where_the_query_occurs(editor: EditorModel, doc: DocumentView)
    requires
        editor.coherent(doc),
        encode_utf8(doc.text).len() <= usize::MAX,
    ensures
        editor.finds(doc) <==> editor.search_query.len() > 0 && exists|at: int|
            occurs_at(doc.text, editor.search_query, at),
{
    if editor.search_query.len() > 0 {
        let matches = all_matches(doc.text, editor.search_query);
        matches_are_the_occurrences_from_left_to_right(doc.text, editor.search_query);
        if matches.len() > 0 {
            assert(occurs_at(doc.text, editor.search_query, matches[0].start as int));
        }
    }
}

/// Opening the find panel keeps the query that is there. Where there is none, a selection in a
/// single line becomes the query, unless there is only white space in it.
pub proof fn opening_takes_the_selection_for_a_query(editor: EditorModel, doc: DocumentView)
    requires
        doc.selection matches Some(range) ==> range.start <= range.end <= doc.text.len(),
    ensures
        ({
            let after = editor.activate(doc).0;
            &&& after.search_active
            &&& editor.search_query.len() > 0 ==> after.search_query == editor.search_query
            &&& editor.search_query.len() == 0 && doc.selection is None
                ==> after.search_query.len() == 0
            &&& editor.search_query.len() == 0 ==> (doc.selection matches Some(range) ==> ({
                let selected = doc.text.subrange(range.start as int, range.end as int);
                let is_query = (exists|i: int|
                    0 <= i < selected.len() && !is_white_space(#[trigger] selected[i])) && (
                forall|i: int| 0 <= i < selected.len() ==> #[trigger] selected[i] != '\n');
                &&& is_query ==> after.search_query == selected
                &&& !is_query ==> after.search_query.len() == 0
            }))
        }),
{
    if let Some(range) = doc.selection {
        let selected = doc.text.subrange(range.start as int, range.end as int);
        if selected.contains('\n') {
            let i = choose|i: int| 0 <= i < selected.len() && selected[i] == '\n';
            assert(selected[i] == '\n');
        } else {
            assert forall|i: int| 0 <= i < selected.len() implies #[trigger] selected[i]
                != '\n' by {
                if selected[i] == '\n' {
                    assert(selected.contains('\n'));
                }
            }
        }
    }
}

/// Opening the find panel goes to the first match, whichever was the current one.
pub proof fn opening_goes_to_the_first_match(editor: EditorModel, doc: DocumentView)
    requires
        editor.coherent(doc),
        encode_utf8(doc.text).len() <= usize::MAX,
        doc.text.len() <= usize::MAX,
    ensures
        ({
            let (after, shown) = editor.activate(doc);
            let matches = all_matches(doc.text, after.search_query);
            &&& after.search_current_match == 0
            &&& after.search_query.len() > 0 && matches.len() > 0 ==> shows_match(
                shown,
                doc,
                matches[0],
            )
            &&& after.search_query.len() == 0 || matches.len() == 0 ==> shown == doc
        }),
{
    let opened = EditorModel { search_active: true, ..editor }.with_query(
        editor.seeded_query(doc),
    );
    if opened.search_query.len() > 0 && all_matches(doc.text, opened.search_query).len() > 0 {
        the_current_match_is_shown(opened, doc);
    } else {
        nothing_is_shown_without_a_match(opened, doc, true);
    }
}

/// What is typed in the find panel comes behind the query, and backspace takes its last
/// character. Either way the first match of the new query is shown.
pub proof fn typing_changes_the_query(
    editor: EditorModel,
    doc: DocumentView,
    cmd: bool,
    shift: bool,
    key: EditorKey,
    raw: Seq<char>,
)
    requires
        editor.coherent(doc),
        encode_utf8(doc.text).len() <= usize::MAX,
        doc.text.len() <= usize::MAX,
        key != EditorKey::Escape && key != EditorKey::Enter && key != EditorKey::Backspace,
        raw.len() > 0,
        raw != seq!['\n'],
        raw != seq!['\r'],
    ensures
        ({
            let (typed, shown) = editor.search_keyed(doc, key, false, shift, Some(raw));
            let (shorter, left) = editor.search_keyed(
                doc,
                EditorKey::Backspace,
                cmd,
                shift,
                Some(raw),
            );
            let matches = all_matches(doc.text, typed.search_query);
            let fewer = all_matches(doc.text, shorter.search_query);
            &&& typed.search_query == editor.search_query + raw
            &&& typed.search_current_match == 0
            &&& matches.len() > 0 ==> shows_match(shown, doc, matches[0])
            &&& matches.len() == 0 ==> shown == doc
            &&& editor.search_query.len() > 0 ==> shorter.search_query == editor.search_query.take(
                editor.search_query.len() - 1,
            )
            &&& editor.search_query.len() == 0 ==> shorter.search_query.len() == 0
            &&& shorter.search_current_match == 0
            &&& shorter.search_query.len() > 0 && fewer.len() > 0 ==> shows_match(
                left,
                doc,
                fewer[0],
            )
            &&& shorter.search_query.len() == 0 || fewer.len() == 0 ==> left == doc
        }),
{
    reveal_strlit("\n");
    reveal_strlit("\r");
    assert("\n"@ =~= seq!['\n']);
    assert("\r"@ =~= seq!['\r']);
    let longer = editor.with_query(editor.search_query + raw);
    if all_matches(doc.text, longer.search_query).len() > 0 {
        the_current_match_is_shown(longer, doc);
    } else {
        nothing_is_shown_without_a_match(longer, doc, true);
    }
    let query = if editor.search_query.len() == 0 {
        editor.search_query
    } else {
        editor.search_query.drop_last()
    };
    assert(editor.search_query.len() > 0 ==> editor.search_query.drop_last()
        =~= editor.search_query.take(editor.search_query.len() - 1));
    let shorter = editor.with_query(query);
    if query.len() > 0 && all_matches(doc.text, query).len() > 0 {
        the_current_match_is_shown(shorter, doc);
    } else {
        nothing_is_shown_without_a_match(shorter, doc, true);
    }
}

/// In the find panel, enter goes to the next match and with shift to the previous one, and escape
/// closes the panel. With the command key held down nothing is typed, nor are line breaks.
pub proof fn keys_of_the_find_panel(
    editor: EditorModel,
    doc: DocumentView,
    cmd: bool,
    shift: bool,
    key: EditorKey,
    key_char: Option<Seq<char>>,
)
    ensures
        editor.search_keyed(doc, EditorKey::Enter, cmd, false, key_char) == editor.jump(doc, true),
        editor.search_keyed(doc, EditorKey::Enter, cmd, true, key_char) == editor.jump(doc, false),
        ({
            let (after, kept) = editor.search_keyed(doc, EditorKey::Escape, cmd, shift, key_char);
            &&& kept == doc
            &&& !after.search_active
            &&& after.search_query == editor.search_query
            &&& after.search_current_match == editor.search_current_match
        }),
        key != EditorKey::Escape && key != EditorKey::Enter && key != EditorKey::Backspace ==> ({
            &&& editor.search_keyed(doc, key, true, shift, key_char) == (editor, doc)
            &&& key_char is None || key_char->0.len() == 0 || key_char->0 == seq!['\n']
                || key_char->0 == seq!['\r'] ==> editor.search_keyed(
                doc,
                key,
                cmd,
                shift,
                key_char,
            ) == (editor, doc)
        }),
{
    reveal_strlit("\n");
    reveal_strlit("\r");
    assert("\n"@ =~= seq!['\n']);
    assert("\r"@ =~= seq!['\r']);
}

/// No key of the find panel changes the text of the document or what can be undone.
pub proof fn the_find_panel_keeps_the_text(
    editor: EditorModel,
    doc: DocumentView,
    key: EditorKey,
    cmd: bool,
    shift: bool,
    key_char: Option<Seq<char>>,
)
    requires
        editor.search_active || cmd,
    ensures
        editor.keyed(doc, key, cmd, shift, key_char).1.text == doc.text,
        editor.keyed(doc, key, cmd, shift, key_char).1.history == doc.history,
        editor.keyed(doc, key, cmd, shift, key_char).1.dirty == doc.dirty,
{
}

/// With the command key, F opens the find panel, and G goes to the next match, with shift to the
/// previous one, or opens the panel where it is closed. Other keys go to the panel where it is
/// open, and to the document where it is not and the command key is not held down.
pub proof fn keys_go_to_the_panel_or_the_document(
    editor: EditorModel,
    doc: DocumentView,
    key: EditorKey,
    cmd: bool,
    shift: bool,
    key_char: Option<Seq<char>>,
)
    ensures
        editor.keyed(doc, EditorKey::Find, true, shift, key_char) == editor.activate(doc),
        editor.search_active ==> editor.keyed(doc, EditorKey::FindAgain, true, false, key_char)
            == editor.jump(doc, true),
        editor.search_active ==> editor.keyed(doc, EditorKey::FindAgain, true, true, key_char)
            == editor.jump(doc, false),
        !editor.search_active ==> editor.keyed(doc, EditorKey::FindAgain, true, shift, key_char)
            == editor.activate(doc),
        editor.search_active ==> editor.find_again(doc, shift) == editor.jump(doc, shift),
        !editor.search_active ==> editor.find_again(doc, shift) == editor.activate(doc),
        !cmd && !editor.search_active ==> editor.keyed(doc, key, cmd, shift, key_char) == (
            editor,
            doc.keyed(key, shift),
        ),
        cmd && !editor.search_active && key != EditorKey::Find && key != EditorKey::FindAgain
            ==> editor.keyed(doc, key, cmd, shift, key_char) == (editor, doc),
        !cmd && editor.search_active ==> editor.keyed(doc, key, cmd, shift, key_char)
            == editor.search_keyed(doc, key, cmd, shift, key_char),
        cmd && editor.search_active && key != EditorKey::Find && key != EditorKey::FindAgain
            ==> editor.keyed(doc, key, cmd, shift, key_char) == editor.search_keyed(
            doc,
            key,
            cmd,
            shift,
            key_char,
        ),
{
}

/// A key that changes the editor or the document has something new to show, but for what is
/// cached. The page keys scroll the document where no panel is open.
pub proof fn changes_are_shown(
    editor: EditorModel,
    doc: DocumentView,
    key: EditorKey,
    cmd: bool,
    shift: bool,
    key_char: Option<Seq<char>>,
)
    ensures
        ({
            let (after, changed) = editor.keyed(doc, key, cmd, shift, key_char);
            let outcome = editor.outcome(doc, key, cmd, key_char);
            &&& changed.text != doc.text || changed.cursor != doc.cursor || after.search_query
                != editor.search_query || after.search_active != editor.search_active
                ==> outcome == KeyOutcome::Shown
            &&& outcome == KeyOutcome::PageUp <==> key == EditorKey::PageUp && !cmd
                && !editor.search_active
            &&& outcome == KeyOutcome::PageDown <==> key == EditorKey::PageDown && !cmd
                && !editor.search_active
        }),
        editor.outcome(doc, EditorKey::Find, true, key_char) == KeyOutcome::Shown,
        editor.search_active ==> (editor.outcome(doc, EditorKey::FindAgain, true, key_char)
            == KeyOutcome::Shown <==> editor.finds(doc)),
        !editor.search_active ==> editor.outcome(doc, EditorKey::FindAgain, true, key_char)
            == KeyOutcome::Shown,
        editor.search_active ==> (editor.outcome(doc, EditorKey::Enter, cmd, key_char)
            == KeyOutcome::Shown <==> editor.finds(doc)),
        editor.search_active ==> editor.outcome(doc, EditorKey::Escape, cmd, key_char)
            == KeyOutcome::Shown,
        editor.search_active ==> editor.outcome(doc, EditorKey::Backspace, cmd, key_char)
            == KeyOutcome::Shown,
        !editor.search_active && !cmd && key != EditorKey::PageUp && key != EditorKey::PageDown
            ==> (editor.outcome(doc, key, cmd, key_char) == KeyOutcome::Shown <==> doc.answers(
            key,
        )),
        cmd && !editor.search_active && key != EditorKey::Find && key != EditorKey::FindAgain
            ==> editor.outcome(doc, key, cmd, key_char) == KeyOutcome::Ignored,
{
    crate::edit_laws::keys_do_what_they_stand_for(doc, key, shift);
    if editor.search_query.len() == 0 {
        assert(editor.search_query =~= Seq::<char>::empty());
    }
}

/// Every key is known by its name, and only by that.
pub proof fn keys_are_known_by_their_names(name: Seq<char>)
    ensures
        named_key(name) == EditorKey::Escape <==> name == "escape"@,
        named_key(name) == EditorKey::Enter <==> name == "enter"@ || name == "return"@,
        named_key(name) == EditorKey::Backspace <==> name == "backspace"@,
        named_key(name) == EditorKey::Delete <==> name == "delete"@,
        named_key(name) == EditorKey::Left <==> name == "left"@ || name == "arrowleft"@,
        named_key(name) == EditorKey::Right <==> name == "right"@ || name == "arrowright"@,
        named_key(name) == EditorKey::Up <==> name == "up"@ || name == "arrowup"@,
        named_key(name) == EditorKey::Down <==> name == "down"@ || name == "arrowdown"@,
        named_key(name) == EditorKey::PageUp <==> name == "pageup"@,
        named_key(name) == EditorKey::PageDown <==> name == "pagedown"@,
        named_key(name) == EditorKey::Find <==> name == "f"@,
        named_key(name) == EditorKey::FindAgain <==> name == "g"@,
{
    reveal_strlit("escape");
    assert("escape"@.len() == 6);
    reveal_strlit("enter");
    assert("enter"@.len() == 5);
    reveal_strlit("return");
    assert("return"@.len() == 6);
    reveal_strlit("backspace");
    assert("backspace"@.len() == 9);
    reveal_strlit("delete");
    assert("delete"@.len() == 6);
    reveal_strlit("left");
    assert("left"@.len() == 4);
    reveal_strlit("arrowleft");
    assert("arrowleft"@.len() == 9);
    reveal_strlit("right");
    assert("right"@.len() == 5);
    reveal_strlit("arrowright");
    assert("arrowright"@.len() == 10);
    reveal_strlit("up");
    assert("up"@.len() == 2);
    reveal_strlit("arrowup");
    assert("arrowup"@.len() == 7);
    reveal_strlit("down");
    assert("down"@.len() == 4);
    reveal_strlit("arrowdown");
    assert("arrowdown"@.len() == 9);
    reveal_strlit("pageup");
    assert("pageup"@.len() == 6);
    reveal_strlit("pagedown");
    assert("pagedown"@.len() == 8);
    reveal_strlit("f");
    assert("f"@.len() == 1);
    reveal_strlit("g");
    assert("g"@.len() == 1);
    assert("escape"@[0] != "return"@[0]);
    assert("escape"@[0] != "delete"@[0]);
    assert("escape"@[0] != "pageup"@[0]);
    assert("enter"@[0] != "right"@[0]);
    assert("return"@[0] != "delete"@[0]);
    assert("return"@[0] != "pageup"@[0]);
    assert("backspace"@[0] != "arrowleft"@[0]);
    assert("backspace"@[0] != "arrowdown"@[0]);
    assert("delete"@[0] != "pageup"@[0]);
    assert("left"@[0] != "down"@[0]);
    assert("arrowleft"@[5] != "arrowdown"@[5]);
    assert("f"@[0] != "g"@[0]);
}

/// A new editor has no query and no panel open, and nothing is being composed.
pub proof fn a_new_editor_finds_nothing()
    ensures
        !new_editor().search_active,
        new_editor().search_query.len() == 0,
        new_editor().search_current_match == 0,
        new_editor().caret_visible,
        !new_editor().ime_edit_active,
        new_editor().marked_range is None,
        new_editor().next_reveal() is None,
{
}

} // verus!
