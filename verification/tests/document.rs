use aster::document::DocumentState;
use aster::text::{
    blank, count_words, has_char, replace_char, same_text, starts_with, to_decimal, trim,
    white_space,
};

fn document(text: &str) -> DocumentState {
    let mut doc = DocumentState::new_empty();
    doc.set_text(text);
    doc.clear_undo_history();
    doc.save_snapshot();
    doc
}

#[test]
fn preserves_reverse_selection_direction() {
    let mut doc = DocumentState::new_empty();
    doc.set_text("abcdef");
    doc.set_selection(5, 2);

    assert_eq!(doc.selection_range(), Some(2..5));
    assert_eq!(doc.selection_anchor, Some(5));
    assert_eq!(doc.cursor, 2);

    let anchor = doc.selection_anchor.unwrap();
    doc.set_selection(anchor, 1);
    assert_eq!(doc.selection_range(), Some(1..5));
    assert_eq!(doc.selection_anchor, Some(5));
    assert_eq!(doc.cursor, 1);
}

#[test]
fn undo_redo_insert_uses_delta_changes() {
    let mut doc = DocumentState::new_empty();
    doc.set_text("hello");
    doc.save_snapshot();
    doc.clear_undo_history();

    doc.begin_edit();
    doc.insert(5, " world");
    doc.cursor = 11;
    doc.commit_edit();

    assert_eq!(doc.text(), "hello world");
    assert!(doc.undo());
    assert_eq!(doc.text(), "hello");
    assert!(doc.redo());
    assert_eq!(doc.text(), "hello world");
}

#[test]
fn undo_redo_replacement_restores_selection_text() {
    let mut doc = DocumentState::new_empty();
    doc.set_text("hello world");
    doc.save_snapshot();
    doc.clear_undo_history();
    doc.set_selection(6, 11);

    doc.begin_edit();
    doc.delete_selection();
    let at = doc.cursor;
    doc.insert(at, "Aster");
    doc.cursor = at + 5;
    doc.commit_edit();

    assert_eq!(doc.text(), "hello Aster");
    assert!(doc.undo());
    assert_eq!(doc.text(), "hello world");
    assert!(doc.redo());
    assert_eq!(doc.text(), "hello Aster");
}

#[test]
fn a_new_document_is_empty_and_clean() {
    let mut doc = DocumentState::new_empty();
    assert_eq!(doc.text(), "");
    assert_eq!(doc.len_chars(), 0);
    assert_eq!(doc.len_bytes(), 0);
    assert_eq!(doc.revision, 0);
    assert_eq!(doc.get_word_count(), 0);
    assert!(!doc.dirty);
    assert!(!doc.undo());
    assert!(!doc.redo());
}

#[test]
fn set_text_moves_the_cursor_to_the_end_and_records_the_delta() {
    let mut doc = document("ab");
    doc.set_text("中x");
    assert_eq!(doc.cursor, 2);
    assert_eq!(doc.len_bytes(), 4);
    let delta = doc.last_edit.unwrap();
    assert_eq!((delta.start_char, delta.old_end_char, delta.new_end_char), (0, 2, 2));
    assert_eq!((delta.start_byte, delta.old_end_byte, delta.new_end_byte), (0, 2, 4));
}

#[test]
fn insert_records_a_delta_in_characters_and_bytes() {
    let mut doc = document("a中b");
    doc.insert(2, "é!");
    assert_eq!(doc.text(), "a中é!b");
    assert!(doc.dirty);
    let delta = doc.last_edit.unwrap();
    assert_eq!((delta.start_char, delta.old_end_char, delta.new_end_char), (2, 2, 4));
    assert_eq!((delta.start_byte, delta.old_end_byte, delta.new_end_byte), (4, 4, 7));
}

#[test]
fn an_insertion_behind_the_end_goes_to_the_end() {
    let mut doc = document("ab");
    doc.insert(99, "c");
    assert_eq!(doc.text(), "abc");
}

#[test]
fn delete_range_records_a_delta_and_keeps_the_cursor_inside() {
    let mut doc = document("a中bc");
    doc.delete_range(1..4);
    assert_eq!(doc.text(), "a");
    assert_eq!(doc.cursor, 1);
    let delta = doc.last_edit.unwrap();
    assert_eq!((delta.start_char, delta.old_end_char, delta.new_end_char), (1, 4, 1));
    assert_eq!((delta.start_byte, delta.old_end_byte, delta.new_end_byte), (1, 6, 1));
}

#[test]
fn ranges_that_are_empty_or_too_long_are_not_deleted() {
    let mut doc = document("abc");
    let revision = doc.revision;
    doc.delete_range(1..1);
    doc.delete_range(1..9);
    assert_eq!(doc.text(), "abc");
    assert_eq!(doc.revision, revision);
    assert!(!doc.dirty);
}

#[test]
fn selections_are_cut_off_at_the_end() {
    let mut doc = document("abc");
    doc.set_selection(1, 99);
    assert_eq!(doc.selection_range(), Some(1..3));
    doc.set_selection(2, 2);
    assert_eq!(doc.selection_range(), None);
    assert_eq!(doc.selection_anchor, Some(2));
    doc.select_all();
    assert_eq!(doc.selection_range(), Some(0..3));
    doc.set_cursor(99);
    assert_eq!(doc.cursor, 3);
    assert_eq!(doc.selection_range(), None);
}

#[test]
fn selecting_all_of_nothing_selects_nothing() {
    let mut doc = document("");
    doc.select_all();
    assert_eq!(doc.selection_range(), None);
    assert_eq!(doc.selection_anchor, Some(0));
}

#[test]
fn characters_and_bytes_map_both_ways() {
    let doc = document("a中😀b");
    let bytes = [0, 1, 4, 8, 9];
    for index in 0..=4 {
        assert_eq!(doc.char_to_byte(index), bytes[index]);
        assert_eq!(doc.byte_to_char(bytes[index]), index);
    }
    assert_eq!(doc.char_to_byte(99), 9);
    assert_eq!(doc.byte_to_char(2), 1);
    assert_eq!(doc.byte_to_char(7), 2);
    assert_eq!(doc.byte_to_char(99), 4);
    assert_eq!(doc.char_range_to_bytes(1..3), 1..8);
    assert_eq!(doc.slice_chars(1..3), "中😀");
}

#[test]
fn the_selection_is_given_in_bytes() {
    let mut doc = document("a中b");
    assert_eq!(doc.selection_bytes(), None);
    doc.set_selection(3, 1);
    assert_eq!(doc.selection_bytes(), Some(1..5));
}

#[test]
fn words_are_runs_without_white_space() {
    let mut doc = document("  one two\nthree\u{3000}four  ");
    assert_eq!(doc.get_word_count(), 4);
    doc.insert(0, "zero");
    assert_eq!(doc.get_word_count(), 5);
}

#[test]
fn words_of_a_long_document_count_once() {
    let mut text = String::new();
    for _ in 0..3000 {
        text.push_str("lorem ipsum ");
    }
    let mut doc = document(&text);
    assert_eq!(doc.get_word_count(), 6000);
}

#[test]
fn words_across_pieces_count_once() {
    assert_eq!(count_words(&vec!["he", "llo wo", "", "rld"]), 2);
    assert_eq!(count_words(&vec!["a ", " b"]), 2);
    assert_eq!(count_words(&vec![]), 0);
}

#[test]
fn white_space_is_that_of_unicode() {
    for c in '\0'..=char::MAX {
        assert_eq!(white_space(c), c.is_whitespace(), "{:?}", c);
    }
}

#[test]
fn undo_gives_back_cursor_and_selection() {
    let mut doc = document("hello world");
    doc.set_selection(11, 6);
    doc.begin_edit();
    doc.delete_selection();
    doc.commit_edit();
    assert_eq!(doc.text(), "hello ");
    assert!(doc.undo());
    assert_eq!(doc.text(), "hello world");
    assert_eq!(doc.selection_range(), Some(6..11));
    assert_eq!(doc.cursor, 6);
    assert_eq!(doc.selection_anchor, Some(11));
    assert!(doc.redo());
    assert_eq!(doc.text(), "hello ");
    assert_eq!(doc.cursor, 6);
    assert_eq!(doc.selection_range(), None);
}

#[test]
fn a_document_is_clean_again_when_it_is_back_at_the_saved_text() {
    let mut doc = document("a");
    doc.begin_edit();
    doc.insert(1, "b");
    doc.commit_edit();
    assert!(doc.dirty);
    doc.undo();
    assert!(!doc.dirty);
    doc.redo();
    assert!(doc.dirty);
    doc.save_snapshot();
    assert!(!doc.dirty);
    doc.undo();
    assert!(doc.dirty);
}

#[test]
fn a_new_edit_leaves_nothing_to_redo() {
    let mut doc = document("");
    for text in ["a", "b"] {
        doc.begin_edit();
        doc.insert(0, text);
        doc.commit_edit();
    }
    doc.undo();
    assert!(doc.can_redo());
    doc.begin_edit();
    doc.insert(0, "c");
    doc.commit_edit();
    assert!(!doc.can_redo());
    assert_eq!(doc.text(), "ca");
    doc.undo();
    doc.undo();
    assert_eq!(doc.text(), "");
    assert!(!doc.can_undo());
}

#[test]
fn an_edit_without_changes_is_no_step() {
    let mut doc = document("a");
    doc.begin_edit();
    doc.commit_edit();
    assert!(!doc.can_undo());
}

#[test]
fn an_edit_of_several_changes_is_one_step() {
    let mut doc = document("abc");
    doc.begin_edit();
    doc.delete_range(0..1);
    doc.insert(2, "def");
    doc.delete_range(1..3);
    doc.commit_edit();
    assert_eq!(doc.text(), "bef");
    doc.undo();
    assert_eq!(doc.text(), "abc");
    doc.redo();
    assert_eq!(doc.text(), "bef");
}

fn delta(doc: &DocumentState) -> [(usize, usize, usize); 2] {
    let delta = doc.last_edit.unwrap();
    [
        (delta.start_char, delta.old_end_char, delta.new_end_char),
        (delta.start_byte, delta.old_end_byte, delta.new_end_byte),
    ]
}

#[test]
fn undo_and_redo_note_what_they_changed() {
    let mut doc = document("");
    doc.begin_edit();
    doc.insert(0, "中");
    doc.commit_edit();
    doc.undo();
    assert_eq!(delta(&doc), [(0, 1, 0), (0, 3, 0)]);
    doc.redo();
    assert_eq!(delta(&doc), [(0, 0, 1), (0, 0, 3)]);
}

#[test]
fn undo_and_redo_note_the_whole_of_several_changes() {
    let mut doc = document("a中cdef");
    doc.begin_edit();
    doc.delete_range(1..3);
    doc.insert(1, "é");
    doc.insert(4, "xy");
    doc.commit_edit();
    assert_eq!(doc.text(), "aédexyf");
    doc.undo();
    assert_eq!(doc.text(), "a中cdef");
    assert_eq!(delta(&doc), [(1, 6, 5), (1, 7, 7)]);
    doc.redo();
    assert_eq!(doc.text(), "aédexyf");
    assert_eq!(delta(&doc), [(1, 5, 6), (1, 7, 7)]);
}

#[test]
fn every_change_has_its_own_revision() {
    let mut doc = document("a");
    let mut last = doc.revision;
    doc.begin_edit();
    doc.insert(0, "b");
    assert_eq!(doc.revision, last + 1);
    last = doc.revision;
    doc.delete_range(0..1);
    assert_eq!(doc.revision, last + 1);
    doc.commit_edit();
    last = doc.revision;
    doc.set_cursor(0);
    doc.select_all();
    assert_eq!(doc.revision, last);
    doc.undo();
    assert_eq!(doc.revision, last + 1);
}

#[test]
fn a_copy_of_a_document_is_its_own() {
    let mut doc = document("a");
    doc.begin_edit();
    doc.insert(1, "b");
    let mut copy = doc.clone();
    copy.insert(2, "c");
    copy.commit_edit();
    assert_eq!(doc.text(), "ab");
    assert_eq!(copy.text(), "abc");
    assert!(copy.undo());
    assert_eq!(copy.text(), "a");
    assert!(!doc.undo());
}

#[test]
fn text_helpers_agree_with_the_standard_library() {
    for text in ["", " ", "a", " a b ", "\u{3000}x\t", "\n\n", "..a..b", "ab"] {
        assert_eq!(trim(text), text.trim());
        assert_eq!(blank(text), text.trim().is_empty());
        assert_eq!(has_char(text, 'a'), text.contains('a'));
        assert_eq!(replace_char(text, '.', "::"), text.replace('.', "::"));
        assert_eq!(starts_with(text, ".."), text.starts_with(".."));
        assert_eq!(same_text(text, "ab"), text == "ab");
    }
    for number in [0u32, 7, 10, 99, 4_294_967_295] {
        assert_eq!(to_decimal(number), number.to_string());
    }
}
