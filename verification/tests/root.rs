use aster::document::DocumentState;
use aster::dropped_files::{
    components_over, document_dir, escape_link_target, escape_markdown_label,
    markdown_drop_target, markdown_for_dropped_file, markdown_reference, next_asset_attempt,
    numbered_file_name, relative_components, relative_path_from, store_dropped_file,
    unique_asset_path, AssetStep, DropPlan,
};
use aster::editor::EditorView;
use aster::inline_markdown::{InlineMarkdownState, InlineParse};
use aster::paths::{has_image_extension, has_markdown_extension, is_image_path, is_markdown_path};
use aster::quicklook::without_nul;
use aster::root::{
    action_new_file, confirm_can_discard_changes, document_saved, document_title,
    dropped_document, has_multiple_lines, image_of_source, insert_dropped, link_to_open,
    must_ask_before_discarding, open_path, open_preview_link, preview_image_source, save_document,
    save_finished, sync_preview_outline_active, titled, window_title, with_markdown_extension, DialogChoice,
    Discard, PreviewImage, RootView, SaveAction,
};

fn strings(texts: &[&str]) -> Vec<String> {
    texts.iter().map(|text| text.to_string()).collect()
}

#[test]
fn document_title_uses_file_name_and_unsaved_marker() {
    let path = "/notes/project-plan.md";

    assert_eq!(document_title(Some(path), true), "project-plan.md •");
}

#[test]
fn document_title_uses_default_name_for_new_documents() {
    assert_eq!(document_title(None, false), "untitled.md");
}

#[test]
fn titles_mark_what_is_not_saved() {
    assert_eq!(titled(Some("a.md"), false), "a.md");
    assert_eq!(titled(None, true), "untitled.md •");
    assert_eq!(document_title(Some("/"), false), "untitled.md");
    assert_eq!(window_title("a.md •"), "a.md • — Aster");
}

#[test]
fn paths_without_extension_are_saved_as_markdown() {
    assert_eq!(with_markdown_extension("/notes/plan"), "/notes/plan.md");
    assert_eq!(with_markdown_extension("/notes/plan.txt"), "/notes/plan.txt");
    assert_eq!(with_markdown_extension("/notes/.plan"), "/notes/.plan.md");
    assert_eq!(with_markdown_extension("/notes/v1.2"), "/notes/v1.2");
    assert_eq!(with_markdown_extension("/"), "/");
}

#[test]
fn a_document_is_saved_at_its_path_unless_another_is_asked_for() {
    let mut doc = DocumentState::new_empty();
    assert!(matches!(save_document(&doc, false), SaveAction::Pick));
    document_saved(&mut doc, "/notes/plan");
    match save_document(&doc, false) {
        SaveAction::Write(path) => assert_eq!(path, "/notes/plan.md"),
        SaveAction::Pick => panic!("the document has a path"),
    }
    assert!(matches!(save_document(&doc, true), SaveAction::Pick));
}

#[test]
fn opening_a_file_starts_afresh() {
    let mut doc = DocumentState::new_empty();
    doc.begin_edit();
    doc.insert(0, "old");
    doc.commit_edit();
    open_path(&mut doc, "/notes/a.md", "new");
    assert_eq!(doc.text(), "new");
    assert_eq!(doc.path, Some("/notes/a.md".to_string()));
    assert!(!doc.dirty);
    assert!(!doc.undo());
    action_new_file(&mut doc);
    assert_eq!(doc.text(), "");
    assert_eq!(doc.path, None);
    assert!(!doc.dirty);
}

#[test]
fn saving_takes_note_of_path_and_text() {
    let mut doc = DocumentState::new_empty();
    doc.insert(0, "text");
    assert!(doc.dirty);
    document_saved(&mut doc, "/notes/a.md");
    assert!(!doc.dirty);
    assert_eq!(doc.path, Some("/notes/a.md".to_string()));
    assert_eq!(doc.text(), "text");
}

#[test]
fn a_failed_save_leaves_the_document_as_it_is() {
    let mut doc = DocumentState::new_empty();
    doc.insert(0, "text");
    save_finished(&mut doc, "/notes/a.md", false);
    assert!(doc.dirty);
    assert_eq!(doc.path, None);
    assert_eq!(doc.text(), "text");
    save_finished(&mut doc, "/notes/a.md", true);
    assert!(!doc.dirty);
    assert_eq!(doc.path, Some("/notes/a.md".to_string()));
    assert_eq!(doc.text(), "text");
}

fn go_on(discard: Discard) -> bool {
    matches!(discard, Discard::GoOn)
}

#[test]
fn unsaved_changes_are_not_given_up_without_consent() {
    let mut doc = DocumentState::new_empty();
    assert!(!must_ask_before_discarding(&doc));
    assert!(go_on(confirm_can_discard_changes(&doc, &DialogChoice::Other)));
    doc.insert(0, "text");
    assert!(must_ask_before_discarding(&doc));
    assert!(go_on(confirm_can_discard_changes(&doc, &DialogChoice::No)));
    let keep = DialogChoice::Custom("Don't Save".to_string());
    assert!(go_on(confirm_can_discard_changes(&doc, &keep)));
    for choice in [DialogChoice::Other, DialogChoice::Custom("Cancel".to_string())] {
        assert!(matches!(confirm_can_discard_changes(&doc, &choice), Discard::Cancel));
    }
    let save = [
        DialogChoice::Confirmed,
        DialogChoice::Yes,
        DialogChoice::Custom("Save".to_string()),
    ];
    for choice in &save {
        assert!(matches!(confirm_can_discard_changes(&doc, choice), Discard::SaveElsewhere));
    }
    doc.path = Some("/notes/a".to_string());
    for choice in &save {
        match confirm_can_discard_changes(&doc, choice) {
            Discard::SaveAndGoOn(path) => assert_eq!(path, "/notes/a.md"),
            other => panic!("{:?}", other),
        }
    }
}

#[test]
fn markdown_and_images_are_told_by_their_extensions() {
    for path in ["a.md", "/x/b.MARKDOWN", "c.mdown", "d.Mkd"] {
        assert!(is_markdown_path(path), "{}", path);
        assert!(!is_image_path(path), "{}", path);
    }
    for name in
        ["png", "JPG", "jpeg", "gif", "webp", "bmp", "tif", "tiff", "heic", "heif", "svg", "avif", "ico"]
    {
        assert!(is_image_path(&format!("dir.md/x.{}", name)), "{}", name);
    }
    for path in ["a.txt", "md", ".md", "a.md.zip", "a."] {
        assert!(!is_markdown_path(path), "{}", path);
        assert!(!is_image_path(path), "{}", path);
    }
    assert!(has_markdown_extension(&Some("MD".to_string())));
    assert!(!has_markdown_extension(&None));
    assert!(has_image_extension(&Some("Png".to_string())));
    assert!(!has_image_extension(&None));
}

#[test]
fn the_first_markdown_file_of_a_drop_is_opened() {
    assert_eq!(dropped_document(&strings(&["a.png", "b.md", "c.md"])), Some(1));
    assert_eq!(dropped_document(&strings(&["a.png"])), None);
    assert_eq!(dropped_document(&vec![]), None);
}

#[test]
fn dropped_snippets_are_one_edit() {
    let mut doc = DocumentState::new_empty();
    doc.set_text("中 x");
    doc.set_selection(2, 3);
    let mut editor = EditorView::new();
    assert!(!insert_dropped(&mut doc, &mut editor, &vec![]));
    assert!(insert_dropped(&mut doc, &mut editor, &strings(&["[a](<a>)", "[b](<b>)"])));
    assert_eq!(doc.text(), "中 [a](<a>)\n[b](<b>)");
    assert_eq!(doc.cursor, 19);
    assert_eq!(editor.pending_scroll_to_byte, Some(21));
    doc.undo();
    assert_eq!(doc.text(), "中 x");
}

#[test]
fn labels_are_escaped() {
    assert_eq!(escape_markdown_label("a[1]\\b"), "a\\[1\\]\\\\b");
    assert_eq!(escape_markdown_label("plain"), "plain");
}

#[test]
fn targets_stay_in_their_brackets() {
    assert_eq!(escape_link_target("a\\b>c"), "a/b%3Ec");
    assert!(!escape_link_target(">>\\").contains('>'));
}

#[test]
fn paths_are_seen_from_the_document() {
    assert_eq!(relative_path_from("/a/b", "/a/c/d.png"), Some("../c/d.png".to_string()));
    assert_eq!(relative_path_from("/a/b", "/a/b/d.png"), Some("d.png".to_string()));
    assert_eq!(relative_path_from("/a/b", "/x"), Some("../../x".to_string()));
    assert_eq!(relative_path_from("/a/b", "/a/b"), Some(String::new()));
    assert_eq!(relative_path_from("a", "a"), Some(String::new()));
    assert_eq!(relative_path_from("", ""), None);
    assert_eq!(relative_path_from("a", "/a"), None);
    assert_eq!(relative_path_from("a", "b"), None);
    assert_eq!(
        relative_components(&strings(&["/", "a", "b"]), &strings(&["/", "c"])),
        Some(strings(&["..", "..", "c"]))
    );
    assert_eq!(relative_components(&strings(&["a"]), &strings(&["b"])), None);
    assert_eq!(relative_components(&strings(&["a"]), &strings(&["a"])), Some(vec![]));
    assert_eq!(components_over(0, 2, &strings(&["a"])), None);
    assert_eq!(components_over(1, 3, &strings(&["a", "b"])), Some(strings(&["..", "..", "b"])));
}

#[test]
fn a_document_lies_in_a_directory() {
    assert_eq!(document_dir(Some("/notes/plan.md")), Some("/notes".to_string()));
    assert_eq!(document_dir(Some("/")), None);
    assert_eq!(document_dir(None), None);
}

#[test]
fn dropped_files_are_referred_to_from_the_document() {
    let document = Some("/notes/plan.md");
    assert_eq!(markdown_drop_target("/notes/assets/a.png", document), "assets/a.png");
    assert_eq!(markdown_drop_target("/notes/assets/a.png", None), "/notes/assets/a.png");
    assert_eq!(
        markdown_for_dropped_file("/notes/assets/a[1].png", document),
        "![a\\[1\\].png](<assets/a[1].png>)"
    );
    assert_eq!(
        markdown_for_dropped_file("/other/b>c.pdf", document),
        "[b>c.pdf](<../other/b%3Ec.pdf>)"
    );
    assert_eq!(markdown_for_dropped_file("/", None), "[file](</>)");
    assert_eq!(markdown_reference(None, "x", true), "![file](<x>)");
}

#[test]
fn dropped_files_are_copied_next_to_the_document() {
    match store_dropped_file("/tmp/a.png", Some("/notes/plan.md")) {
        DropPlan::Copy { assets_dir, file_name } => {
            assert_eq!(assets_dir, "/notes/assets");
            assert_eq!(file_name, "a.png");
        }
        DropPlan::Keep => panic!("the file is elsewhere"),
    }
    let keep = [
        ("/tmp/a.png", None),
        ("/", Some("/notes/plan.md")),
        ("/notes/assets/a.png", Some("/notes/plan.md")),
        ("/notes//assets/a.png", Some("/notes/plan.md")),
    ];
    for (path, document) in keep {
        assert!(matches!(store_dropped_file(path, document), DropPlan::Keep), "{}", path);
    }
}

fn free_path(existing: &[&str], assets_dir: &str, file_name: &str) -> String {
    let mut attempt = 1;
    loop {
        let candidate = unique_asset_path(assets_dir, file_name, attempt);
        match next_asset_attempt(attempt, existing.contains(&candidate.as_str())) {
            Some(AssetStep::Use(used)) => return unique_asset_path(assets_dir, file_name, used),
            Some(AssetStep::Try(next)) => attempt = next,
            None => panic!("a path is free"),
        }
    }
}

#[test]
fn a_stored_file_gets_the_first_free_path() {
    let existing = ["/n/a.png", "/n/a-2.png", "/n/a-3.png", "/n/a-5.png", "/n/b"];
    assert_eq!(free_path(&existing, "/n", "a.png"), "/n/a-4.png");
    assert_eq!(free_path(&existing, "/n", "b"), "/n/b-2");
    assert_eq!(free_path(&existing, "/n", "c.png"), "/n/c.png");
    assert_eq!(next_asset_attempt(7, false), Some(AssetStep::Use(7)));
    assert_eq!(next_asset_attempt(7, true), Some(AssetStep::Try(8)));
    assert_eq!(next_asset_attempt(u32::MAX, false), Some(AssetStep::Use(u32::MAX)));
    assert_eq!(next_asset_attempt(u32::MAX, true), None);
}

#[test]
fn stored_files_get_numbers_where_names_are_taken() {
    assert_eq!(unique_asset_path("/n/assets", "a.png", 1), "/n/assets/a.png");
    assert_eq!(unique_asset_path("/n/assets", "a.png", 2), "/n/assets/a-2.png");
    assert_eq!(unique_asset_path("/n/assets", "a.tar.gz", 13), "/n/assets/a.tar-13.gz");
    assert_eq!(unique_asset_path("/n/assets", "README", 3), "/n/assets/README-3");
    assert_eq!(unique_asset_path("/n/assets", "a.", 3), "/n/assets/a-3");
    assert_eq!(numbered_file_name(&None, &None, 4_294_967_295), "file-4294967295");
    assert_eq!(
        numbered_file_name(&Some("a".to_string()), &Some("b".to_string()), 2),
        "a-2.b"
    );
}

fn source(image: PreviewImage) -> String {
    match image {
        PreviewImage::Source(text) => text,
        other => panic!("{:?}", other),
    }
}

fn path(image: PreviewImage) -> String {
    match image {
        PreviewImage::Path(text) => text,
        other => panic!("{:?}", other),
    }
}

#[test]
fn images_are_files_or_urls() {
    match preview_image_source("file:///tmp/a%20b.png", "/notes") {
        PreviewImage::File(bytes) => assert_eq!(bytes, b"/tmp/a b.png".to_vec()),
        other => panic!("{:?}", other),
    }
    assert_eq!(
        source(preview_image_source("https://example.com/a.png", "/notes")),
        "https://example.com/a.png"
    );
    assert_eq!(
        source(preview_image_source("file://host/a.png", "/notes")),
        "file://host/a.png"
    );
    assert_eq!(source(preview_image_source("//cdn/a.png", "/notes")), "//cdn/a.png");
    assert_eq!(path(preview_image_source("/abs/a.png", "/notes")), "/abs/a.png");
    assert_eq!(path(preview_image_source("img/a.png", "/notes")), "/notes/img/a.png");
}

#[test]
fn images_are_decided_from_url_and_path() {
    let full = || "/notes/x".to_string();
    assert!(matches!(
        image_of_source("x", Some("file"), Some(vec![47]), full()),
        PreviewImage::File(_)
    ));
    assert_eq!(source(image_of_source("x", Some("file"), None, full())), "x");
    assert_eq!(source(image_of_source("x", Some("http"), Some(vec![47]), full())), "x");
    assert_eq!(path(image_of_source("x", None, None, full())), "/notes/x");
}

#[test]
fn links_open_urls_and_files() {
    for target in ["#part", "//host/x", "https://example.com", "mailto:a@b.c"] {
        assert_eq!(open_preview_link(target, "/notes"), target);
    }
    assert_eq!(open_preview_link("b c.md", "/notes"), "file:///notes/b%20c.md");
    assert_eq!(open_preview_link("/abs.md", "/notes"), "file:///abs.md");
    assert_eq!(open_preview_link("b.md", "relative"), "b.md");
    assert_eq!(link_to_open("x", false, Some("file:///x".to_string())), "file:///x");
    assert_eq!(link_to_open("x", true, Some("file:///x".to_string())), "x");
    assert_eq!(link_to_open("x", false, None), "x");
}

#[test]
fn the_preview_follows_the_last_heading_above_the_line() {
    assert_eq!(sync_preview_outline_active(&vec![]), None);
    assert_eq!(sync_preview_outline_active(&vec![Some(false)]), Some(0));
    assert_eq!(
        sync_preview_outline_active(&vec![Some(true), None, Some(true), Some(false), Some(true)]),
        Some(2)
    );
    assert_eq!(sync_preview_outline_active(&vec![None, None]), Some(0));
}

#[test]
fn more_than_one_line_is_told_as_lines_are_read() {
    for text in ["", "a", "a\n", "a\nb", "\n", "\n\n", "a\r\nb", "a\n\n"] {
        assert_eq!(has_multiple_lines(text), text.lines().nth(1).is_some(), "{:?}", text);
    }
}

#[test]
fn the_window_toggles_its_parts() {
    let mut root = RootView::new(false, true);
    assert!(root.take_preview_focus());
    assert!(!root.take_preview_focus());
    assert!(root.set_resizing_sidebar(true));
    assert!(root.toggle_outline());
    assert!(!root.resizing_sidebar);
    assert!(!root.toggle_outline());
    assert!(!root.toggle_preview());
    assert!(!root.take_preview_focus());
    assert!(root.toggle_preview());
    assert!(root.take_preview_focus());
    assert!(!root.set_resizing_sidebar(false));
}

#[test]
fn an_older_timer_does_not_hide_the_scroll_indicator() {
    let mut root = RootView::new(false, true);
    let first = root.reveal_preview_scroll_indicator();
    let second = root.reveal_preview_scroll_indicator();
    assert!(!root.hide_preview_scroll_indicator(first));
    assert!(root.preview_scroll_indicator_visible);
    assert!(root.hide_preview_scroll_indicator(second));
    assert!(!root.preview_scroll_indicator_visible);
}

#[test]
fn the_window_reads_the_document_when_it_changes() {
    let mut root = RootView::new(false, false);
    let mut doc = RootView::new_document();
    let inline: InlineMarkdownState = RootView::new_inline_markdown();
    assert_eq!(root.document_text(&doc), "");
    assert_eq!(root.schedule_inline_parse(&doc, &inline, ""), InlineParse::NotNeeded);
    doc.set_text("# a");
    assert_eq!(root.document_text(&doc), "# a");
    assert_eq!(root.document_text(&doc), "# a");
    assert_eq!(root.schedule_inline_parse(&doc, &inline, "# a"), InlineParse::Now);
    assert_eq!(root.schedule_inline_parse(&doc, &inline, "# a"), InlineParse::NotNeeded);
    assert!(RootView::build_editor().caret_visible);
    assert!(RootView::build_file_explorer().active_outline_ordinal.is_none());
}

#[test]
fn quick_look_gets_no_nul() {
    assert_eq!(without_nul("a\0b\0"), "a\u{fffd}b\u{fffd}");
    assert_eq!(without_nul("plain"), "plain");
}
