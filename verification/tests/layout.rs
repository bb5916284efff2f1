use aster::editor_text_layout::{
    display_line_ranges, highlights_for_line, render_editor_text, source_lines, EditorTextLayout,
    EMPTY_LINE_PLACEHOLDER,
};
use aster::highlights::sanitize_highlights;

#[test]
fn line_ranges_keep_empty_lines_and_trailing_line() {
    assert_eq!(display_line_ranges("a\n\nb\n"), vec![0..1, 2..2, 3..4, 5..5]);
}

#[test]
fn source_lines_hold_the_text_between_line_feeds() {
    assert_eq!(source_lines("# \u{e9}\n\nb\r\n"), vec!["# \u{e9}", "", "b\r", ""]);
    assert_eq!(source_lines(""), vec![""]);
}

#[test]
fn line_highlights_are_clipped_and_rebased() {
    let highlights = vec![(2..8, ())];
    let result = highlights_for_line(&highlights, &(5..10));
    assert_eq!(result.len(), 1);
    assert_eq!(result[0].0, 0..3);
}

#[test]
fn line_highlights_outside_the_line_are_dropped() {
    let highlights = vec![(0..5, 'a'), (4..6, 'b'), (9..20, 'c'), (10..12, 'd')];
    assert_eq!(
        highlights_for_line(&highlights, &(5..10)),
        vec![(0..1, 'b'), (4..5, 'c')]
    );
}

#[test]
fn an_empty_text_has_one_line() {
    assert_eq!(display_line_ranges(""), vec![0..0]);
}

#[test]
fn sanitize_highlights_repairs_non_boundary_ranges() {
    let text = "dn’t require";
    let raw = vec![(0..3, ())];
    let sanitized = sanitize_highlights(text, raw);
    assert_eq!(sanitized.len(), 1);
    let range = &sanitized[0].0;
    assert_eq!(range.start, 0);
    assert_eq!(range.end, 5);
    assert!(text.is_char_boundary(range.start));
    assert!(text.is_char_boundary(range.end));
}

#[test]
fn sanitize_highlights_drops_what_lies_outside_and_cuts_off_the_rest() {
    let raw = vec![(3..3, 'a'), (5..9, 'b'), (4..2, 'c'), (2..9, 'd')];
    assert_eq!(sanitize_highlights("abcde", raw), vec![(2..5, 'd')]);
    assert_eq!(sanitize_highlights("", vec![(0..1, ())]), vec![]);
}

#[test]
fn sanitize_highlights_sorts_and_keeps_the_order_of_equals() {
    let raw = vec![(2..4, 'a'), (0..3, 'b'), (2..3, 'c'), (0..3, 'd'), (2..4, 'e')];
    assert_eq!(
        sanitize_highlights("abcde", raw),
        vec![(0..3, 'b'), (0..3, 'd'), (2..3, 'c'), (2..4, 'a'), (2..4, 'e')]
    );
}

#[test]
fn each_line_is_laid_out_with_its_part_of_the_highlights() {
    let text = "# 中\n\nbody";
    let highlights = vec![(0..1, 'm'), (3..9, 's')];
    let levels = vec![Some(1), None];
    let render = render_editor_text(text, &levels, &highlights);
    assert_eq!(render.layout.lines, vec![0..5, 6..6, 7..11]);
    assert_eq!(render.layout.display_len, 11);
    assert_eq!(render.lines.len(), 3);
    assert_eq!(render.lines[0].text, "# 中");
    assert_eq!(render.lines[0].highlights, vec![(0..1, 'm'), (3..5, 's')]);
    assert_eq!(render.lines[0].heading_level, Some(1));
    assert_eq!(render.lines[1].text, EMPTY_LINE_PLACEHOLDER);
    assert_eq!(render.lines[1].text, "\u{200B}");
    assert!(render.lines[1].highlights.is_empty());
    assert_eq!(render.lines[2].text, "body");
    assert_eq!(render.lines[2].highlights, vec![(0..2, 's')]);
    assert_eq!(render.lines[2].heading_level, None);
    assert_eq!(render.lines[2].display_range, 7..11);
}

fn layout() -> EditorTextLayout {
    render_editor_text("ab\n\ncd", &vec![], &vec![(0..1, ())]).layout
}

#[test]
fn bytes_are_found_in_their_lines() {
    let layout = layout();
    assert_eq!(layout.position_for_index(0), Some((0, 0)));
    assert_eq!(layout.position_for_index(2), Some((0, 2)));
    assert_eq!(layout.position_for_index(3), Some((1, 0)));
    assert_eq!(layout.position_for_index(4), Some((2, 0)));
    assert_eq!(layout.position_for_index(6), Some((2, 2)));
    assert_eq!(layout.position_for_index(99), Some((2, 2)));
    assert_eq!(layout.line_height_for_index(5), Some(2));
    assert_eq!(EditorTextLayout::default().position_for_index(3), None);
    assert_eq!(EditorTextLayout::default().line_height_for_index(3), None);
}

#[test]
fn every_byte_comes_back_from_its_line() {
    let layout = layout();
    for index in 0..=6 {
        let (line, offset) = layout.position_for_index(index).unwrap();
        assert_eq!(layout.index_for_position(Some(line), Ok(offset)), Ok(index));
    }
}

#[test]
fn positions_beside_a_line_stay_in_it() {
    let layout = layout();
    assert_eq!(layout.index_for_position(None, Err(7)), Ok(0));
    assert_eq!(layout.index_for_position(Some(0), Err(99)), Err(2));
    assert_eq!(layout.index_for_position(Some(2), Ok(1)), Ok(5));
    assert_eq!(layout.index_for_position(Some(1), Err(4)), Ok(3));
}

#[test]
fn the_first_of_the_closest_lines_is_taken() {
    let layout = layout();
    let bits = |distances: &[f32]| distances.iter().map(|d| d.to_bits()).collect::<Vec<u32>>();
    assert_eq!(layout.closest_line(&bits(&[])), None);
    assert_eq!(layout.closest_line(&bits(&[12.5, 3.0, 3.0, 40.0])), Some(1));
    assert_eq!(layout.closest_line(&bits(&[12.5, 0.0, 0.25, 0.0])), Some(1));
}
