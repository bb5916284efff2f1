use aster::document::DocumentState;
use aster::file_explorer::{
    active_outline_ordinal, heading_level_number, outline_of_events, parse_outline_items,
    FileExplorerView, HeadingLevel, MarkdownEvent,
};

#[test]
fn parses_multilevel_headings_in_document_order() {
    let text = "# Top\n\n## Child\n\n### Leaf\n";
    let items = parse_outline_items(text);

    assert_eq!(items.len(), 3);
    assert_eq!(items[0].ordinal, 0);
    assert_eq!(items[0].level, 1);
    assert_eq!(items[0].title, "Top");
    assert_eq!(items[0].byte_start, text.find("# Top").unwrap());
    assert_eq!(items[1].ordinal, 1);
    assert_eq!(items[1].level, 2);
    assert_eq!(items[1].title, "Child");
    assert_eq!(items[1].byte_start, text.find("## Child").unwrap());
    assert_eq!(items[2].ordinal, 2);
    assert_eq!(items[2].level, 3);
    assert_eq!(items[2].title, "Leaf");
    assert_eq!(items[2].byte_start, text.find("### Leaf").unwrap());
}

#[test]
fn outline_titles_have_no_white_space_around_them() {
    let items = parse_outline_items("# `  a `  \n\n#\n\n###### \u{a0}b\n");
    assert_eq!(items.len(), 2);
    for (index, item) in items.iter().enumerate() {
        assert_eq!(item.ordinal, index);
        assert!((1..=6).contains(&item.level));
        assert_eq!(item.title, item.title.trim());
        assert!(!item.title.is_empty());
    }
    assert_eq!(items[0].title, "a");
    assert_eq!(items[1].title, "b");
}

#[test]
fn active_outline_follows_last_heading_before_viewport_byte() {
    let text = "# Top\n\nbody\n\n## Child\n\nmore\n\n### Leaf\n";
    let items = parse_outline_items(text);
    let child = text.find("## Child").unwrap();
    let leaf = text.find("### Leaf").unwrap();

    assert_eq!(active_outline_ordinal(&items, 0), Some(0));
    assert_eq!(active_outline_ordinal(&items, child - 1), Some(0));
    assert_eq!(active_outline_ordinal(&items, child), Some(1));
    assert_eq!(active_outline_ordinal(&items, leaf), Some(2));
}

#[test]
fn ignores_heading_like_lines_inside_fenced_code() {
    let text = "# Real\n\n```md\n## Not an outline heading\n```\n\n## Next\n";
    let items = parse_outline_items(text);

    assert_eq!(items.len(), 2);
    assert_eq!(items[0].title, "Real");
    assert_eq!(items[1].title, "Next");
    assert_eq!(items[1].ordinal, 1);
}

#[test]
fn includes_setext_headings_without_shifting_following_ordinals() {
    let text = "Document title\n==============\n\n## Section\n";
    let items = parse_outline_items(text);

    assert_eq!(items.len(), 2);
    assert_eq!(items[0].level, 1);
    assert_eq!(items[0].title, "Document title");
    assert_eq!(items[0].byte_start, 0);
    assert_eq!(items[1].level, 2);
    assert_eq!(items[1].title, "Section");
    assert_eq!(items[1].ordinal, 1);
}

#[test]
fn titles_hold_text_and_code_and_one_space_for_a_break() {
    let items = parse_outline_items("One `two`\nthree *four*\n===\n");
    assert_eq!(items.len(), 1);
    assert_eq!(items[0].title, "One two three four");
}

#[test]
fn headings_of_all_levels_are_read() {
    let items = parse_outline_items("# a\n## b\n### c\n#### d\n##### e\n###### f\n");
    let levels: Vec<u32> = items.iter().map(|item| item.level).collect();
    assert_eq!(levels, vec![1, 2, 3, 4, 5, 6]);
    assert_eq!(heading_level_number(HeadingLevel::H1), 1);
    assert_eq!(heading_level_number(HeadingLevel::H6), 6);
}

#[test]
fn headings_without_a_title_do_not_count() {
    let items = parse_outline_items("#\n\n# Named\n");
    assert_eq!(items.len(), 1);
    assert_eq!(items[0].title, "Named");
    assert_eq!(items[0].ordinal, 0);
}

#[test]
fn events_are_read_in_order() {
    let events = vec![
        MarkdownEvent::Text("before".to_string()),
        MarkdownEvent::HeadingStart(HeadingLevel::H2, 9),
        MarkdownEvent::Text(" a ".to_string()),
        MarkdownEvent::SoftBreak,
        MarkdownEvent::Code("b".to_string()),
        MarkdownEvent::HardBreak,
        MarkdownEvent::Other,
        MarkdownEvent::Text("c ".to_string()),
        MarkdownEvent::HeadingEnd,
        MarkdownEvent::HeadingEnd,
        MarkdownEvent::HeadingStart(HeadingLevel::H3, 20),
        MarkdownEvent::SoftBreak,
        MarkdownEvent::HeadingEnd,
    ];
    let items = outline_of_events(&events);
    assert_eq!(items.len(), 1);
    assert_eq!(items[0].title, "a b c");
    assert_eq!(items[0].level, 2);
    assert_eq!(items[0].byte_start, 9);
}

#[test]
fn without_headings_none_is_active() {
    assert_eq!(active_outline_ordinal(&vec![], 3), None);
    let items = parse_outline_items("\n\n# Late\n");
    assert_eq!(active_outline_ordinal(&items, 0), Some(0));
}

#[test]
fn the_outline_follows_the_document() {
    let mut doc = DocumentState::new_empty();
    doc.set_text("# One\n\n# Two\n");
    let mut explorer = FileExplorerView::new();
    assert!(explorer.set_active_outline_for_byte(&doc, 7));
    assert_eq!(explorer.active_outline_ordinal, Some(1));
    assert!(!explorer.set_active_outline_for_byte(&doc, 12));
    assert_eq!(explorer.outline_items(&doc).len(), 2);
    doc.insert(0, "# Zero\n\n");
    assert_eq!(explorer.outline_items(&doc).len(), 3);
    assert_eq!(explorer.outline_items(&doc)[0].title, "Zero");
    assert!(explorer.set_active_outline(None));
    assert!(!explorer.set_active_outline(None));
}

#[test]
fn choosing_an_entry_puts_the_cursor_at_it() {
    let mut doc = DocumentState::new_empty();
    doc.set_text("中\n\n# Two\n");
    let mut explorer = FileExplorerView::new();
    let start = explorer.outline_items(&doc)[0].byte_start;
    assert!(explorer.select_entry(&mut doc, 0, start));
    assert_eq!(explorer.active_outline_ordinal, Some(0));
    assert_eq!(doc.cursor, 3);
}
