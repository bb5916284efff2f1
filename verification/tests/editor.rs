use aster::commands::{
    backspace, copy, cut, delete_forward, move_down, move_left, move_right, move_up, new_line,
    point_at, type_text,
};
use aster::document::DocumentState;
use aster::editor::{EditorView, HEAVY_DOCUMENT_BYTES};
use aster::editor_frame::{Emphasis, MenuCommand};
use aster::editor_keys::{key_named, EditorKey, KeyOutcome, Keystroke};
use aster::inline_markdown::{InlineMarkdownState, InlineParse, InlineSchedule};
use aster::search::{find_all_matches_case_insensitive, pop_last_char};
use aster::syntax::{syntax_style, SyntaxKind, SyntaxSpan};
use aster::system_colors::{SystemColors, ThemeColor};
use aster::theme::{MarkdownStyle, Theme, ThemeName, ThemeSettings};
use aster::utf16::{
    char_index_to_utf16, char_range_to_utf16, utf16_offset_to_char_in_str, utf16_range_to_chars,
    utf16_to_char_index,
};

fn document(text: &str) -> DocumentState {
    let mut doc = DocumentState::new_empty();
    doc.set_text(text);
    doc.clear_undo_history();
    doc.save_snapshot();
    doc
}

fn style() -> MarkdownStyle<u8> {
    let settings = ThemeSettings { theme_name: ThemeName::default() };
    let system = SystemColors { selection_background: None, control_accent: Some(7u8) };
    Theme::markdown_style(&settings, system)
}

#[test]
fn find_matches_ascii_case_insensitive() {
    let text = "Hello hello HeLLo";
    let matches = find_all_matches_case_insensitive(text, "hello");
    assert_eq!(matches, vec![0..5, 6..11, 12..17]);
}

#[test]
fn find_matches_respect_utf8_boundaries() {
    let text = "dn’t require a patchwork; dn’t repeat";
    let matches = find_all_matches_case_insensitive(text, "dn’t");
    assert_eq!(matches.len(), 2);
    for range in matches {
        assert!(text.is_char_boundary(range.start));
        assert!(text.is_char_boundary(range.end));
    }
}

#[test]
fn matches_do_not_overlap() {
    assert_eq!(find_all_matches_case_insensitive("aaaaa", "AA"), vec![0..2, 2..4]);
    assert_eq!(find_all_matches_case_insensitive("abab", "aba"), vec![0..3]);
}

#[test]
fn an_empty_needle_and_one_that_is_too_long_are_not_found() {
    assert_eq!(find_all_matches_case_insensitive("abc", ""), vec![]);
    assert_eq!(find_all_matches_case_insensitive("abc", "abcd"), vec![]);
    assert_eq!(find_all_matches_case_insensitive("", "a"), vec![]);
}

#[test]
fn only_ascii_letters_are_folded() {
    assert_eq!(find_all_matches_case_insensitive("É é", "é"), vec![3..5]);
    assert_eq!(find_all_matches_case_insensitive("[{", "{"), vec![1..2]);
}

#[test]
fn the_last_character_is_taken_off() {
    let mut text = "a😀".to_string();
    pop_last_char(&mut text);
    assert_eq!(text, "a");
    pop_last_char(&mut text);
    pop_last_char(&mut text);
    assert_eq!(text, "");
}

#[test]
fn utf16_mapping_handles_cjk_and_surrogate_pairs() {
    let mut doc = DocumentState::new_empty();
    doc.set_text("A中😀B");

    assert_eq!(char_index_to_utf16(&doc, 0), 0);
    assert_eq!(char_index_to_utf16(&doc, 1), 1);
    assert_eq!(char_index_to_utf16(&doc, 2), 2);
    assert_eq!(char_index_to_utf16(&doc, 3), 4);
    assert_eq!(char_index_to_utf16(&doc, 4), 5);

    assert_eq!(utf16_to_char_index(&doc, 0), 0);
    assert_eq!(utf16_to_char_index(&doc, 1), 1);
    assert_eq!(utf16_to_char_index(&doc, 2), 2);
    assert_eq!(utf16_to_char_index(&doc, 3), 2);
    assert_eq!(utf16_to_char_index(&doc, 4), 3);
    assert_eq!(utf16_to_char_index(&doc, 5), 4);
}

#[test]
fn marked_selection_utf16_offsets_are_relative_to_new_text() {
    assert_eq!(utf16_offset_to_char_in_str("中😀文", 0), 0);
    assert_eq!(utf16_offset_to_char_in_str("中😀文", 1), 1);
    assert_eq!(utf16_offset_to_char_in_str("中😀文", 3), 2);
    assert_eq!(utf16_offset_to_char_in_str("中😀文", 4), 3);
}

#[test]
fn utf16_ranges_go_both_ways() {
    let doc = document("A中😀B");
    assert_eq!(char_range_to_utf16(&doc, &(1..3)), 1..4);
    assert_eq!(utf16_range_to_chars(&doc, &(1..4)), 1..3);
    assert_eq!(utf16_range_to_chars(&doc, &(4..1)), 3..3);
    assert_eq!(utf16_range_to_chars(&doc, &(3..99)), 2..4);
    assert_eq!(char_range_to_utf16(&doc, &(4..99)), 5..5);
}

#[test]
fn backspace_takes_out_a_character_or_the_selection() {
    let mut doc = document("a中b");
    assert!(backspace(&mut doc));
    assert_eq!(doc.text(), "a中");
    assert_eq!(doc.cursor, 2);
    doc.set_selection(0, 2);
    assert!(backspace(&mut doc));
    assert_eq!(doc.text(), "");
    assert!(!backspace(&mut doc));
    doc.undo();
    assert_eq!(doc.text(), "a中");
    doc.undo();
    assert_eq!(doc.text(), "a中b");
}

#[test]
fn delete_takes_out_the_character_behind_the_cursor() {
    let mut doc = document("ab");
    assert!(!delete_forward(&mut doc));
    doc.set_cursor(0);
    assert!(delete_forward(&mut doc));
    assert_eq!(doc.text(), "b");
    assert_eq!(doc.cursor, 0);
    doc.set_selection(0, 1);
    assert!(delete_forward(&mut doc));
    assert_eq!(doc.text(), "");
}

#[test]
fn typing_replaces_the_selection_and_can_be_undone() {
    let mut doc = document("hello world");
    doc.set_selection(6, 11);
    type_text(&mut doc, "中😀");
    assert_eq!(doc.text(), "hello 中😀");
    assert_eq!(doc.cursor, 8);
    new_line(&mut doc);
    assert_eq!(doc.text(), "hello 中😀\n");
    assert_eq!(doc.cursor, 9);
    doc.undo();
    doc.undo();
    assert_eq!(doc.text(), "hello world");
    assert_eq!(doc.selection_range(), Some(6..11));
}

#[test]
fn the_cursor_moves_by_characters() {
    let mut doc = document("a中");
    assert!(!move_right(&mut doc, false));
    assert!(move_left(&mut doc, false));
    assert_eq!(doc.cursor, 1);
    assert!(move_left(&mut doc, true));
    assert_eq!(doc.selection_range(), Some(0..1));
    assert!(!move_left(&mut doc, true));
    assert!(move_right(&mut doc, true));
    assert!(move_right(&mut doc, true));
    assert_eq!(doc.selection_range(), Some(1..2));
    assert!(move_left(&mut doc, false));
    assert_eq!(doc.selection_range(), None);
}

#[test]
fn the_cursor_moves_by_lines_and_keeps_its_column() {
    let mut doc = document("abcd\nxy\n\nefgh");
    assert_eq!(doc.cursor, 13);
    assert!(!move_down(&mut doc, false));
    assert!(move_up(&mut doc, false));
    assert_eq!(doc.cursor, 8);
    doc.set_cursor(3);
    assert!(!move_up(&mut doc, false));
    assert!(move_down(&mut doc, false));
    assert_eq!(doc.cursor, 7);
    assert!(move_up(&mut doc, false));
    assert_eq!(doc.cursor, 2);
    assert!(move_down(&mut doc, true));
    assert_eq!(doc.selection_range(), Some(2..7));
    assert_eq!(doc.cursor, 7);
    doc.set_cursor(8);
    assert!(move_down(&mut doc, false));
    assert_eq!(doc.cursor, 9);
}

#[test]
fn pointing_sets_the_cursor_or_extends_the_selection() {
    let mut doc = document("a中b");
    point_at(&mut doc, 4, false);
    assert_eq!(doc.cursor, 2);
    point_at(&mut doc, 0, true);
    assert_eq!(doc.selection_range(), Some(0..2));
    assert_eq!(doc.selection_anchor, Some(2));
    point_at(&mut doc, 5, true);
    assert_eq!(doc.selection_range(), Some(2..3));
}

#[test]
fn copy_and_cut_give_the_selected_text() {
    let mut doc = document("hello world");
    assert_eq!(copy(&doc), None);
    assert_eq!(cut(&mut doc), None);
    doc.set_selection(11, 5);
    assert_eq!(copy(&doc), Some(" world".to_string()));
    assert_eq!(cut(&mut doc), Some(" world".to_string()));
    assert_eq!(doc.text(), "hello");
    assert_eq!(doc.cursor, 5);
    doc.undo();
    assert_eq!(doc.text(), "hello world");
}

#[test]
fn a_composition_is_one_step_of_the_history() {
    let mut doc = document("ab");
    doc.set_cursor(1);
    let mut editor = EditorView::new();
    editor.replace_and_mark_text_in_range(&mut doc, None, "n", None);
    assert_eq!(doc.text(), "anb");
    assert_eq!(editor.marked_range, Some(1..2));
    assert_eq!(editor.marked_text_range(&doc), Some(1..2));
    assert!(editor.ime_edit_active);
    editor.replace_and_mark_text_in_range(&mut doc, None, "に", Some(0..1));
    assert_eq!(doc.text(), "aにb");
    assert_eq!(doc.selection_range(), Some(1..2));
    editor.replace_text_in_range(&mut doc, None, "日本");
    assert_eq!(doc.text(), "a日本b");
    assert_eq!(doc.cursor, 3);
    assert!(!editor.ime_edit_active);
    assert_eq!(editor.marked_range, None);
    assert!(doc.undo());
    assert_eq!(doc.text(), "ab");
    assert!(!doc.can_undo());
    assert!(doc.redo());
    assert_eq!(doc.text(), "a日本b");
}

#[test]
fn a_composition_that_is_unmarked_stays() {
    let mut doc = document("");
    let mut editor = EditorView::new();
    editor.replace_and_mark_text_in_range(&mut doc, None, "x", None);
    editor.unmark_text(&mut doc);
    assert_eq!(doc.text(), "x");
    assert_eq!(editor.marked_range, None);
    doc.undo();
    assert_eq!(doc.text(), "");
}

#[test]
fn a_composition_that_is_emptied_marks_nothing() {
    let mut doc = document("a");
    let mut editor = EditorView::new();
    editor.replace_and_mark_text_in_range(&mut doc, None, "xy", None);
    editor.replace_and_mark_text_in_range(&mut doc, None, "", None);
    assert_eq!(doc.text(), "a");
    assert_eq!(editor.marked_range, None);
    assert!(editor.ime_edit_active);
}

#[test]
fn input_replaces_the_range_that_it_names() {
    let mut doc = document("A中😀B");
    let mut editor = EditorView::new();
    editor.replace_text_in_range(&mut doc, Some(1..4), "xyz");
    assert_eq!(doc.text(), "AxyzB");
    assert_eq!(doc.cursor, 4);
    doc.set_selection(4, 5);
    editor.replace_text_in_range(&mut doc, None, "");
    assert_eq!(doc.text(), "Axyz");
}

#[test]
fn platform_input_reads_text_and_selection() {
    let mut doc = document("A中😀B");
    let editor = EditorView::new();
    assert_eq!(editor.text_for_range(&doc, &(2..3)), ("".to_string(), 2..2));
    assert_eq!(editor.text_for_range(&doc, &(1..4)), ("中😀".to_string(), 1..4));
    let selection = editor.selected_text_range(&doc);
    assert_eq!(selection.range, 5..5);
    assert!(!selection.reversed);
    doc.set_selection(3, 1);
    let selection = editor.selected_text_range(&doc);
    assert_eq!(selection.range, 1..4);
    assert!(selection.reversed);
    assert_eq!(editor.marked_text_range(&doc), None);
}

#[test]
fn displayed_bytes_and_platform_offsets_match() {
    let doc = document("A中😀B");
    let mut editor = EditorView::new();
    let frame = editor.frame(&doc, &InlineMarkdownState::new(), style(), true);
    assert_eq!(editor.bounds_for_range(&doc, &frame.projection, &(1..4)), 8);
    assert_eq!(editor.character_index_for_point(&doc, &frame.projection, 8), 4);
}

#[test]
fn the_find_panel_opens_with_the_selection() {
    let mut doc = document("one two ONE");
    doc.set_selection(0, 3);
    let mut editor = EditorView::new();
    editor.activate_search(&mut doc);
    assert!(editor.search_active);
    assert_eq!(editor.search_query, "one");
    assert_eq!(doc.selection_range(), Some(0..3));
    assert_eq!(editor.pending_scroll_to_byte, Some(0));
    assert!(editor.jump_search(&mut doc, true));
    assert_eq!(doc.selection_range(), Some(8..11));
    assert_eq!(editor.search_current_match, 1);
    assert!(editor.jump_search(&mut doc, true));
    assert_eq!(doc.selection_range(), Some(0..3));
    assert!(editor.jump_search(&mut doc, false));
    assert_eq!(doc.selection_range(), Some(8..11));
    editor.close_search();
    assert!(!editor.search_active);
}

#[test]
fn blank_and_broken_selections_are_no_query() {
    for text in ["  ", "a\nb"] {
        let mut doc = document(text);
        doc.select_all();
        let mut editor = EditorView::new();
        editor.activate_search(&mut doc);
        assert_eq!(editor.search_query, "");
        assert_eq!(editor.pending_scroll_to_byte, None);
    }
}

#[test]
fn a_search_without_matches_selects_nothing() {
    let mut doc = document("abc");
    let mut editor = EditorView::new();
    editor.search_query = "x".to_string();
    assert!(!editor.select_current_search_match(&mut doc));
    assert!(!editor.jump_search(&mut doc, true));
    assert_eq!(doc.selection_range(), None);
    editor.search_query = String::new();
    assert!(!editor.jump_search(&mut doc, true));
}

#[test]
fn matches_follow_the_document() {
    let mut doc = document("ab ab");
    let mut editor = EditorView::new();
    editor.search_active = true;
    editor.search_query = "ab".to_string();
    let (text, revision) = editor.current_text_and_revision(&doc);
    assert_eq!(editor.search_highlights(&text, revision), vec![0..2, 3..5]);
    doc.insert(0, "中");
    let (text, revision) = editor.current_text_and_revision(&doc);
    assert_eq!(text, "中ab ab");
    assert_eq!(editor.search_highlights(&text, revision), vec![3..5, 6..8]);
    assert!(editor.select_current_search_match(&mut doc));
    assert_eq!(doc.selection_range(), Some(1..3));
    editor.invalidate_search_cache();
    assert!(editor.cached_search.is_none());
    assert_eq!(editor.ensure_search_cache(&text, revision).len(), 2);
}

fn keystroke(key: &str) -> Keystroke {
    Keystroke {
        key: key.to_string(),
        platform: false,
        control: false,
        shift: false,
        key_char: None,
    }
}

fn command(key: &str) -> Keystroke {
    Keystroke { platform: true, ..keystroke(key) }
}

fn typed(text: &str) -> Keystroke {
    Keystroke { key_char: Some(text.to_string()), ..keystroke(text) }
}

#[test]
fn keys_have_names_in_any_case() {
    assert_eq!(key_named("backspace"), EditorKey::Backspace);
    assert_eq!(key_named("return"), EditorKey::Enter);
    assert_eq!(key_named("arrowup"), EditorKey::Up);
    assert_eq!(key_named("x"), EditorKey::Other);
    let mut doc = document("a");
    let mut editor = EditorView::new();
    assert_eq!(editor.on_key_down(&mut doc, &keystroke("Backspace")), KeyOutcome::Shown);
    assert_eq!(doc.text(), "");
}

#[test]
fn keys_edit_the_document() {
    let mut doc = document("ab");
    let mut editor = EditorView::new();
    assert_eq!(editor.on_key_down(&mut doc, &keystroke("enter")), KeyOutcome::Shown);
    assert_eq!(doc.text(), "ab\n");
    assert_eq!(editor.on_key_down(&mut doc, &keystroke("up")), KeyOutcome::Shown);
    assert_eq!(doc.cursor, 0);
    assert_eq!(editor.on_key_down(&mut doc, &keystroke("up")), KeyOutcome::Ignored);
    assert_eq!(editor.on_key_down(&mut doc, &keystroke("delete")), KeyOutcome::Shown);
    assert_eq!(doc.text(), "b\n");
    assert_eq!(editor.on_key_down(&mut doc, &keystroke("right")), KeyOutcome::Shown);
    assert_eq!(editor.on_key_down(&mut doc, &keystroke("down")), KeyOutcome::Shown);
    assert_eq!(doc.cursor, 2);
    let shifted = Keystroke { shift: true, ..keystroke("left") };
    assert_eq!(editor.on_key_down(&mut doc, &shifted), KeyOutcome::Shown);
    assert_eq!(doc.selection_range(), Some(1..2));
    assert_eq!(editor.on_key_down(&mut doc, &command("left")), KeyOutcome::Ignored);
    assert_eq!(editor.on_key_down(&mut doc, &keystroke("pageup")), KeyOutcome::PageUp);
    assert_eq!(editor.on_key_down(&mut doc, &keystroke("pagedown")), KeyOutcome::PageDown);
    assert_eq!(editor.on_key_down(&mut doc, &typed("x")), KeyOutcome::Ignored);
}

#[test]
fn keys_go_to_the_open_find_panel() {
    let mut doc = document("abc ABC");
    let mut editor = EditorView::new();
    assert_eq!(editor.on_key_down(&mut doc, &command("f")), KeyOutcome::Shown);
    assert!(editor.search_active);
    assert_eq!(editor.on_key_down(&mut doc, &typed("b")), KeyOutcome::Shown);
    assert_eq!(editor.on_key_down(&mut doc, &typed("c")), KeyOutcome::Shown);
    assert_eq!(editor.search_query, "bc");
    assert_eq!(doc.selection_range(), Some(1..3));
    assert_eq!(editor.on_key_down(&mut doc, &keystroke("enter")), KeyOutcome::Shown);
    assert_eq!(doc.selection_range(), Some(5..7));
    let back = Keystroke { shift: true, ..keystroke("enter") };
    assert_eq!(editor.on_key_down(&mut doc, &back), KeyOutcome::Shown);
    assert_eq!(doc.selection_range(), Some(1..3));
    assert_eq!(editor.on_key_down(&mut doc, &command("g")), KeyOutcome::Shown);
    assert_eq!(doc.selection_range(), Some(5..7));
    assert_eq!(editor.on_key_down(&mut doc, &typed("\n")), KeyOutcome::Ignored);
    assert_eq!(editor.on_key_down(&mut doc, &command("x")), KeyOutcome::Ignored);
    assert_eq!(editor.on_key_down(&mut doc, &keystroke("backspace")), KeyOutcome::Shown);
    assert_eq!(editor.search_query, "b");
    assert_eq!(doc.text(), "abc ABC");
    assert_eq!(editor.on_key_down(&mut doc, &typed("z")), KeyOutcome::Shown);
    assert_eq!(editor.on_key_down(&mut doc, &keystroke("enter")), KeyOutcome::Ignored);
    assert_eq!(editor.on_key_down(&mut doc, &keystroke("escape")), KeyOutcome::Shown);
    assert!(!editor.search_active);
    assert_eq!(editor.on_key_down(&mut doc, &command("g")), KeyOutcome::Shown);
    assert!(editor.search_active);
}

#[test]
fn finding_again_opens_the_panel_first() {
    let mut doc = document("aa");
    doc.set_selection(0, 1);
    let mut editor = EditorView::new();
    assert!(editor.find_again(&mut doc, true));
    assert_eq!(doc.selection_range(), Some(0..1));
    assert!(editor.find_again(&mut doc, true));
    assert_eq!(doc.selection_range(), Some(1..2));
}

#[test]
fn the_caret_blinks_in_small_documents_only() {
    let mut editor = EditorView::new();
    let small = document("a");
    assert!(editor.blink(&small));
    assert!(!editor.caret_visible);
    let mut text = String::new();
    for _ in 0..=HEAVY_DOCUMENT_BYTES {
        text.push('x');
    }
    let large = document(&text);
    assert!(editor.blink(&large));
    assert!(editor.caret_visible);
    assert!(!editor.blink(&large));
    assert!(editor.caret_visible);
}

#[test]
fn the_outline_is_revealed_before_the_cursor() {
    let mut editor = EditorView::new();
    let doc = document("中a");
    editor.reveal_cursor(&doc);
    assert_eq!(editor.pending_scroll_to_byte, Some(4));
    editor.reveal_outline(3);
    assert_eq!(editor.pending_scroll_to_byte, None);
    editor.reveal_cursor(&doc);
    assert_eq!(editor.take_pending_reveal(), Some((3, true)));
    assert_eq!(editor.take_pending_reveal(), Some((4, false)));
    assert_eq!(editor.take_pending_reveal(), None);
}

#[test]
fn a_frame_shows_text_caret_and_highlights() {
    let mut doc = document("# 中 x x");
    let mut inline = InlineMarkdownState::new();
    let spans = vec![SyntaxSpan { range: 0..1, kind: SyntaxKind::HeadingMarker }];
    assert!(inline.apply(doc.revision, spans, 1));
    let mut editor = EditorView::new();
    let frame = editor.frame(&doc, &inline, style(), true);
    assert_eq!(frame.text, "# 中 x x");
    assert_eq!(frame.projection.display_text, "# 中 x x");
    assert_eq!(frame.cursor_display_byte, 9);
    assert!(frame.draw_caret);
    assert!(frame.input_enabled);
    assert_eq!(frame.syntax_highlights.len(), 1);
    assert_eq!(frame.syntax_highlights[0].0, 0..1);
    assert_eq!(frame.search_match_count, 0);
    assert_eq!(frame.search_match_display, 0);

    doc.set_selection(2, 3);
    editor.search_active = true;
    editor.search_query = "X".to_string();
    editor.search_current_match = 1;
    let frame = editor.frame(&doc, &inline, style(), true);
    assert!(!frame.draw_caret);
    assert!(frame.has_selection);
    assert!(!frame.input_enabled);
    assert_eq!(frame.selection_highlights, vec![(2..5, Emphasis::Selection)]);
    assert_eq!(
        frame.search_highlights,
        vec![(6..7, Emphasis::SearchMatch), (8..9, Emphasis::SearchMatch)]
    );
    assert_eq!(frame.search_match_count, 2);
    assert_eq!(frame.search_match_display, 2);

    doc.insert(0, "y");
    let frame = editor.frame(&doc, &inline, style(), false);
    assert_eq!(frame.text, "y# 中 x x");
    assert!(frame.syntax_highlights.is_empty());
    assert!(!frame.draw_caret);
}

#[test]
fn markers_are_muted_and_links_have_the_accent() {
    let style = style();
    assert_eq!(
        syntax_style(SyntaxKind::CodeFence, style),
        Some(ThemeColor::Palette(style.muted_foreground))
    );
    assert_eq!(
        syntax_style(SyntaxKind::InlineCode, style),
        Some(ThemeColor::Palette(style.foreground))
    );
    assert_eq!(syntax_style(SyntaxKind::LinkText, style), Some(ThemeColor::System(7)));
    assert_eq!(syntax_style(SyntaxKind::StrongText, style), None);
}

#[test]
fn late_parses_are_dropped() {
    let mut inline = InlineMarkdownState::new();
    assert!(inline.apply(4, vec![], 2));
    assert!(!inline.apply(3, vec![SyntaxSpan { range: 0..1, kind: SyntaxKind::LinkUrl }], 9));
    assert_eq!(inline.source_revision, 4);
    assert_eq!(inline.parse_millis, 2);
    assert_eq!(inline.dropped_updates, 1);
    assert!(inline.spans.is_empty());
    assert!(inline.apply(4, vec![SyntaxSpan { range: 0..1, kind: SyntaxKind::LinkUrl }], 3));
    assert_eq!(inline.spans.len(), 1);
}

#[test]
fn a_parse_is_asked_for_once_per_revision() {
    let mut schedule = InlineSchedule::new();
    assert_eq!(schedule.schedule(1, 0, 100), InlineParse::Now);
    assert_eq!(schedule.schedule(1, 0, 100), InlineParse::NotNeeded);
    assert_eq!(schedule.schedule(2, 2, 100), InlineParse::NotNeeded);
    assert_eq!(schedule.schedule(3, 1, 65536), InlineParse::Now);
    assert_eq!(schedule.schedule(4, 3, 65537), InlineParse::Later);
}

#[test]
fn the_context_menu_needs_a_selection_to_cut_and_copy() {
    let commands =
        [MenuCommand::Cut, MenuCommand::Copy, MenuCommand::Paste, MenuCommand::SelectAll];
    let labels: Vec<&str> = commands.iter().map(|command| command.label()).collect();
    assert_eq!(labels, vec!["Cut", "Copy", "Paste", "Select All"]);
    let enabled: Vec<bool> = commands.iter().map(|command| command.is_enabled(false)).collect();
    assert_eq!(enabled, vec![false, false, true, true]);
    assert!(commands.iter().all(|command| command.is_enabled(true)));
}
