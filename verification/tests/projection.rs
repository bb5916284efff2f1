use aster::projection::{DisplayProjection, ProjectionSegment};

#[test]
fn display_projection_preserves_all_markdown_source() {
    let source = "# Title\n2. **bold** [link](https://example.com)";
    let projection = DisplayProjection::from_source(source);
    assert_eq!(projection.display_text, source);
}

#[test]
fn display_projection_preserves_heading_marker_and_following_space() {
    let source = "# Hi";
    let projection = DisplayProjection::from_source(source);
    assert_eq!(projection.display_text, source);
}

#[test]
fn display_projection_maps_link_end_to_source_end() {
    let source = "![cola-2.png](<assets/cola-2.png>)";
    let projection = DisplayProjection::from_source(source);

    assert_eq!(projection.display_text, source);
    assert_eq!(
        projection.display_to_source_byte(projection.display_text.len()),
        source.len()
    );
}

#[test]
fn display_projection_maps_each_source_byte_identically() {
    let source = "[Google](https://google.com) next";
    let projection = DisplayProjection::from_source(source);

    for byte in 0..=source.len() {
        assert_eq!(projection.source_to_display_byte(byte), byte);
        assert_eq!(projection.display_to_source_byte(byte), byte);
    }
}

#[test]
fn display_projection_keeps_utf8_source_intact() {
    let source = "# 中文😀";
    let projection = DisplayProjection::from_source(source);
    assert_eq!(projection.display_text, source);
}

/// `[text](url)` with all but `text` hidden.
fn link_projection() -> DisplayProjection {
    DisplayProjection {
        display_text: "text".to_string(),
        source_len: 11,
        segments: vec![
            ProjectionSegment { source: 0..1, display_start: 0, hidden: true },
            ProjectionSegment { source: 1..5, display_start: 0, hidden: false },
            ProjectionSegment { source: 5..11, display_start: 4, hidden: true },
        ],
    }
}

#[test]
fn hidden_segments_take_no_room() {
    let projection = link_projection();
    assert_eq!(projection.source_to_display_byte(0), 0);
    assert_eq!(projection.source_to_display_byte(1), 0);
    assert_eq!(projection.source_to_display_byte(3), 2);
    assert_eq!(projection.source_to_display_byte(5), 4);
    assert_eq!(projection.source_to_display_byte(9), 4);
    assert_eq!(projection.source_to_display_byte(99), 4);
    assert_eq!(projection.display_to_source_byte(0), 1);
    assert_eq!(projection.display_to_source_byte(2), 3);
    assert_eq!(projection.display_to_source_byte(4), 11);
    assert_eq!(projection.display_to_source_byte(99), 11);
}

#[test]
fn later_source_bytes_are_not_displayed_earlier() {
    let projection = link_projection();
    let displayed: Vec<usize> =
        (0..=11).map(|byte| projection.source_to_display_byte(byte)).collect();
    assert!(displayed.windows(2).all(|pair| pair[0] <= pair[1]));
}

#[test]
fn highlights_are_projected_and_hidden_ones_dropped() {
    let projection = link_projection();
    let highlights = vec![(0..1, 'a'), (1..4, 'b'), (4..8, 'c'), (6..9, 'd')];
    assert_eq!(projection.project_highlights(highlights), vec![(0..3, 'b'), (3..4, 'c')]);
}
