//! The window: the document's file, the outline and the preview.
use crate::commands;
use crate::document::{DocumentState, DocumentView};
use crate::editor::{EditorModel, EditorView};
use crate::inline_markdown::{InlineMarkdownState, InlineParse, InlineSchedule};
use crate::paths::{
    extension, file_name, file_url, is_absolute, is_markdown_path, join, set_extension,
    url_file_path, url_scheme,
};
use crate::paths::{
    extended_path, extension_of, file_name_of, file_url_of, is_absolute_path, joined_path,
    last_index, name_extension, name_stem, names_markdown, ref_text_of, text_of, texts_of,
    url_path_of, url_scheme_of,
};
use crate::syntax::SyntaxSpan;
use crate::text::{has_prefix, same_text, starts_with};
use vstd::prelude::*;
use vstd::string::*;

verus! {

/// The title of a document: the name of its file, with a mark if it is not saved.
pub open spec fn title(name: Option<Seq<char>>, is_dirty: bool) -> Seq<char> {
    (match name {
        Some(name) => name,
        None => "untitled.md"@,
    }) + (if is_dirty {
        " •"@
    } else {
        ""@
    })
}

/// The name of the file at an optional path.
pub open spec fn name_of(path: Option<Seq<char>>) -> Option<Seq<char>> {
    match path {
        Some(path) => file_name_of(path),
        None => None,
    }
}

/// The title of a document whose file has the given name.
pub fn titled(name: Option<&str>, is_dirty: bool) -> (text: String)
    ensures
        text@ == title(ref_text_of(name), is_dirty),
{
    let mut text = match name {
        Some(name) => name.to_owned(),
        None => "untitled.md".to_owned(),
    };
    if is_dirty {
        text.append(" •");
    } else {
        text.append("");
    }
    text
}

/// Returns the file name displayed in the custom title bar, including its unsaved marker.
pub fn document_title(path: Option<&str>, is_dirty: bool) -> (text: String)
    ensures
        text@ == title(name_of(ref_text_of(path)), is_dirty),
{
    let name = match path {
        Some(path) => file_name(path),
        None => None,
    };
    match &name {
        Some(name) => titled(Some(name.as_str()), is_dirty),
        None => titled(None, is_dirty),
    }
}

/// The title of the window of a document.
pub fn window_title(document_title: &str) -> (text: String)
    ensures
        text@ == document_title@ + " — Aster"@,
{
    let mut text = document_title.to_owned();
    text.append(" — Aster");
    text
}

/// The path that a document is saved at: one without an extension gets that of Markdown.
pub open spec fn save_path(path: Seq<char>) -> Seq<char> {
    if extension_of(path) is None {
        extended_path(path, "md"@)
    } else {
        path
    }
}

pub fn with_markdown_extension(path: &str) -> (saved: String)
    ensures
        saved@ == save_path(path@),
        file_name_of(path@) matches Some(name) ==> (name.len() > 0 && extension_of(path@) is None
            ==> names_markdown(extension_of(saved@))),
{
    match extension(path) {
        Some(_) => path.to_owned(),
        None => {
            proof {
                reveal_strlit("md");
                assert(!"md"@.contains('/'));
                assert(!"md"@.contains('\\'));
                if let Some(name) = file_name_of(path@) {
                    markdown_extension_is_added(name);
                }
            }
            set_extension(path, "md")
        },
    }
}

/// A name with the extension of Markdown has it.
proof fn markdown_extension_is_added(name: Seq<char>)
    requires
        name_extension(name) is None,
    ensures
        name_stem(name) == name,
        name.len() > 0 ==> names_markdown(name_extension(name_stem(name).push('.') + "md"@)),
{
    reveal_strlit("md");
    let full = name.push('.') + "md"@;
    reveal_with_fuel(last_index, 4);
    assert(full[full.len() - 1] == 'd');
    assert(full[full.len() - 2] == 'm');
    assert(full[full.len() - 3] == '.');
    assert(last_index(full, '.', full.len() as int) == name.len());
    assert(full.skip(name.len() as int + 1) =~= "md"@);
    assert(crate::paths::ascii_lower_text("md"@) =~= "md"@);
}

/// What saving a document asks for.
#[derive(Debug)]
pub enum SaveAction {
    /// Write the text to the path.
    Write(String),
    /// Ask where to write it.
    Pick,
}

/// Decides how a document is saved: at its path, or at one that is asked for.
pub fn save_document(doc: &DocumentState, force_save_as: bool) -> (action: SaveAction)
    ensures
        action is Write == (!force_save_as && doc@.path is Some),
        action matches SaveAction::Write(path) ==> Some(path@) == (match doc@.path {
            Some(path) => Some(save_path(path)),
            None => None,
        }),
{
    if !force_save_as {
        match &doc.path {
            Some(path) => {
                return SaveAction::Write(with_markdown_extension(path.as_str()));
            },
            None => {},
        }
    }
    SaveAction::Pick
}

impl DocumentView {
    /// The document with its text stored at a path.
    pub open spec fn saved_at(self, path: Seq<char>) -> Self {
        DocumentView { path: Some(path), ..self }.save_snapshot()
    }

    /// The document that holds a file.
    pub open spec fn opened(self, path: Option<Seq<char>>, text: Seq<char>) -> Self {
        DocumentView { path, ..self }.set_text(text).clear_undo_history().save_snapshot()
    }
}

/// Takes note that the document has been written to a path.
pub fn document_saved(doc: &mut DocumentState, path: &str)
    ensures
        final(doc)@ == old(doc)@.saved_at(path@),
{
    doc.path = Some(path.to_owned());
    doc.save_snapshot();
}

/// Takes note of how writing the document to a path ended. One that failed leaves the document
/// as it is.
pub fn save_finished(doc: &mut DocumentState, path: &str, ok: bool)
    ensures
        final(doc)@ == (if ok {
            old(doc)@.saved_at(path@)
        } else {
            old(doc)@
        }),
{
    if ok {
        document_saved(doc, path);
    }
}

/// Makes the document hold the file that was read from a path.
pub fn open_path(doc: &mut DocumentState, path: &str, text: &str)
    ensures
        final(doc)@ == old(doc)@.opened(Some(path@), text@),
{
    doc.path = Some(path.to_owned());
    doc.set_text(text);
    doc.clear_undo_history();
    doc.save_snapshot();
}

/// Makes the document an empty one that has not been stored.
pub fn action_new_file(doc: &mut DocumentState)
    ensures
        final(doc)@ == old(doc)@.opened(None, Seq::empty()),
{
    proof {
        reveal_strlit("");
        assert(""@ =~= Seq::<char>::empty());
    }
    doc.path = None;
    doc.set_text("");
    doc.clear_undo_history();
    doc.save_snapshot();
}

/// A document that a file is opened in starts afresh: it holds the file, is not dirty, and has
/// nothing to undo.
pub proof fn opening_starts_afresh(
    document: DocumentView,
    path: Option<Seq<char>>,
    text: Seq<char>,
)
    requires
        text.len() <= usize::MAX,
    ensures
        document.opened(path, text).consistent(),
        document.opened(path, text).text == text,
        document.opened(path, text).path == path,
        !document.opened(path, text).dirty,
        document.opened(path, text).undo() == document.opened(path, text),
        document.opened(path, text).redo() == document.opened(path, text),
{
}

/// A document that has been saved is not dirty, and holds the text that it held before.
pub proof fn saving_keeps_the_document(document: DocumentView, path: Seq<char>)
    ensures
        !document.saved_at(path).dirty,
        document.saved_at(path).text == document.text,
        document.saved_at(path).history == document.history,
        document.consistent() ==> document.saved_at(path).consistent(),
{
}

/// What the dialog about unsaved changes was answered.
#[derive(Debug)]
pub enum DialogChoice {
    Confirmed,
    Yes,
    No,
    Custom(String),
    /// Anything else.
    Other,
}

/// What is to happen to unsaved changes.
#[derive(Debug)]
pub enum Discard {
    /// There is nothing to save, or it need not be saved: go on.
    GoOn,
    /// Write the text to the path and go on.
    SaveAndGoOn(String),
    /// Ask where to save, and do not go on.
    SaveElsewhere,
    /// Do not go on.
    Cancel,
}

/// The answer asks for saving.
pub open spec fn asks_to_save(choice: DialogChoice) -> bool {
    match choice {
        DialogChoice::Confirmed | DialogChoice::Yes => true,
        DialogChoice::Custom(label) => label@ == "Save"@,
        _ => false,
    }
}

/// The answer lets go of the changes.
pub open spec fn asks_to_discard(choice: DialogChoice) -> bool {
    match choice {
        DialogChoice::No => true,
        DialogChoice::Custom(label) => label@ == "Don't Save"@ && label@ != "Save"@,
        _ => false,
    }
}

/// Whether the user has to be asked about unsaved changes.
pub fn must_ask_before_discarding(doc: &DocumentState) -> (ask: bool)
    ensures
        ask == doc@.dirty,
{
    doc.dirty
}

/// Decides what happens to the changes of a document, for what the dialog was answered.
pub fn confirm_can_discard_changes(doc: &DocumentState, choice: &DialogChoice) -> (discard: Discard)
    ensures
        match discard {
            Discard::GoOn => !doc@.dirty || asks_to_discard(*choice),
            Discard::SaveAndGoOn(path) => doc@.dirty && asks_to_save(*choice) && doc@.path is Some
                && path@ == save_path(doc@.path->0),
            Discard::SaveElsewhere => doc@.dirty && asks_to_save(*choice) && doc@.path is None,
            Discard::Cancel => doc@.dirty && !asks_to_save(*choice) && !asks_to_discard(*choice),
        },
{
    if !doc.dirty {
        return Discard::GoOn;
    }
    let save = match choice {
        DialogChoice::Confirmed | DialogChoice::Yes => true,
        DialogChoice::No => return Discard::GoOn,
        DialogChoice::Custom(label) => {
            if same_text(label.as_str(), "Save") {
                true
            } else if same_text(label.as_str(), "Don't Save") {
                return Discard::GoOn;
            } else {
                false
            }
        },
        DialogChoice::Other => false,
    };
    if !save {
        return Discard::Cancel;
    }
    match &doc.path {
        Some(path) => Discard::SaveAndGoOn(with_markdown_extension(path.as_str())),
        None => Discard::SaveElsewhere,
    }
}

/// The first Markdown file of a list of paths, from the given one on, or the number of paths.
pub open spec fn markdown_from(paths: Seq<Seq<char>>, index: int) -> int
    decreases paths.len() - index,
{
    if index >= paths.len() || names_markdown(extension_of(paths[index])) {
        index
    } else {
        markdown_from(paths, index + 1)
    }
}

/// The Markdown file that is opened when paths are dropped on the window, if there is one.
pub fn dropped_document(paths: &Vec<String>) -> (dropped: Option<usize>)
    ensures
        dropped == ({
            let first = markdown_from(texts_of(paths@), 0);
            if first < paths@.len() {
                Some(first as usize)
            } else {
                None
            }
        }),
{
    let mut index: usize = 0;
    while index < paths.len()
        invariant
            index <= paths@.len(),
            markdown_from(texts_of(paths@), index as int) == markdown_from(texts_of(paths@), 0),
        decreases paths@.len() - index,
    {
        if is_markdown_path(paths[index].as_str()) {
            return Some(index);
        }
        index = index + 1;
    }
    None
}

/// Lines with a line break between each two.
pub open spec fn lines(texts: Seq<Seq<char>>) -> Seq<char>
    decreases texts.len(),
{
    if texts.len() == 0 {
        Seq::empty()
    } else if texts.len() == 1 {
        texts[0]
    } else {
        lines(texts.drop_last()) + "\n"@ + texts.last()
    }
}

fn join_lines(texts: &Vec<String>) -> (text: String)
    ensures
        text@ == lines(texts_of(texts@)),
{
    let ghost all = texts_of(texts@);
    let mut text = String::new();
    let mut i: usize = 0;
    while i < texts.len()
        invariant
            i <= texts@.len(),
            all == texts_of(texts@),
            text@ == lines(all.take(i as int)),
        decreases texts@.len() - i,
    {
        proof {
            assert(all.take(i + 1).drop_last() =~= all.take(i as int));
            assert(all.take(i + 1).last() == texts@[i as int]@);
            assert(Seq::<char>::empty() + texts@[i as int]@ =~= texts@[i as int]@);
        }
        if i > 0 {
            text.append("\n");
        }
        text.append(texts[i].as_str());
        i = i + 1;
    }
    assert(all.take(i as int) =~= all);
    text
}

/// Puts the Markdown of dropped files in the place of what is selected, and reveals the cursor.
/// Returns whether there was any.
pub fn insert_dropped(doc: &mut DocumentState, editor: &mut EditorView, snippets: &Vec<String>) -> (
    inserted: bool)
    ensures
        inserted == (snippets@.len() > 0),
        inserted ==> final(doc)@ == old(doc)@.type_text(lines(texts_of(snippets@))),
        inserted ==> final(editor)@ == (EditorModel {
            pending_scroll_to_byte: Some(
                crate::document::byte_of(
                    final(doc)@.text,
                    final(doc)@.cursor as int,
                ) as usize,
            ),
            ..old(editor)@
        }),
        !inserted ==> final(doc)@ == old(doc)@ && final(editor)@ == old(editor)@,
        old(editor).wf() ==> final(editor).wf(),
{
    if snippets.is_empty() {
        return false;
    }
    let insertion = join_lines(snippets);
    commands::type_text(doc, insertion.as_str());
    editor.reveal_cursor(doc);
    true
}

/// The image that a preview shows.
#[derive(Debug)]
pub enum PreviewImage {
    /// A file, by the bytes of its path.
    File(Vec<u8>),
    /// A file, by its path.
    Path(String),
    /// Whatever the source names.
    Source(String),
}

/// A path from a document: as it is if it is absolute, or else from the document's directory.
pub open spec fn resolved(path: Seq<char>, document_dir: Seq<char>) -> Seq<char> {
    if is_absolute_path(path) {
        path
    } else {
        joined_path(document_dir, path)
    }
}

fn resolve(path: &str, document_dir: &str) -> (full: String)
    ensures
        full@ == resolved(path@, document_dir@),
{
    if is_absolute(path) {
        path.to_owned()
    } else {
        join(document_dir, path)
    }
}

/// The image that a source names: a file URL is the path of its file, another URL and a source
/// that starts with two slashes are left as they are, and anything else is a path.
pub open spec fn is_image_of(
    image: PreviewImage,
    source: Seq<char>,
    scheme: Option<Seq<char>>,
    url_path: Option<Seq<u8>>,
    path: Seq<char>,
) -> bool {
    if scheme is Some && scheme->0 == "file"@ && url_path is Some {
        image matches PreviewImage::File(bytes) && bytes@ == url_path->0
    } else if scheme is Some || has_prefix(source, "//"@) {
        image matches PreviewImage::Source(text) && text@ == source
    } else {
        image matches PreviewImage::Path(text) && text@ == path
    }
}

/// Decides on the image that a source names, from what it is as a URL and as a path.
pub fn image_of_source(
    source: &str,
    scheme: Option<&str>,
    url_path: Option<Vec<u8>>,
    path: String,
) -> (image: PreviewImage)
    ensures
        is_image_of(
            image,
            source@,
            ref_text_of(scheme),
            crate::paths::bytes_of(url_path),
            path@,
        ),
{
    match scheme {
        Some(scheme) => {
            if same_text(scheme, "file") {
                match url_path {
                    Some(bytes) => {
                        return PreviewImage::File(bytes);
                    },
                    None => {},
                }
            }
            return PreviewImage::Source(source.to_owned());
        },
        None => {},
    }
    if starts_with(source, "//") {
        return PreviewImage::Source(source.to_owned());
    }
    PreviewImage::Path(path)
}

/// The image that a source in a document names.
pub fn preview_image_source(source: &str, document_dir: &str) -> (image: PreviewImage)
    ensures
        is_image_of(
            image,
            source@,
            url_scheme_of(source@),
            url_path_of(source@),
            resolved(source@, document_dir@),
        ),
{
    let scheme = url_scheme(source);
    let url_path = url_file_path(source);
    let path = resolve(source, document_dir);
    match &scheme {
        Some(scheme) => image_of_source(source, Some(scheme.as_str()), url_path, path),
        None => image_of_source(source, None, url_path, path),
    }
}

/// What is opened for a link: the link itself where it is a fragment, a URL or starts with two
/// slashes, or else the URL of the file, if it has one.
pub open spec fn opened_link(target: Seq<char>, is_url: bool, url: Option<Seq<char>>) -> Seq<char> {
    if has_prefix(target, "#"@) || has_prefix(target, "//"@) || is_url {
        target
    } else {
        match url {
            Some(url) => url,
            None => target,
        }
    }
}

/// Decides what is opened for a link, from whether it is a URL and the URL of the file that it
/// names as a path.
pub fn link_to_open(target: &str, is_url: bool, file_url: Option<String>) -> (opened: String)
    ensures
        opened@ == opened_link(target@, is_url, text_of(file_url)),
{
    if starts_with(target, "#") || starts_with(target, "//") || is_url {
        return target.to_owned();
    }
    match file_url {
        Some(url) => url,
        None => target.to_owned(),
    }
}

/// What is opened for a link in the preview of a document.
pub fn open_preview_link(target: &str, document_dir: &str) -> (opened: String)
    ensures
        opened@ == opened_link(
            target@,
            url_scheme_of(target@) is Some,
            file_url_of(resolved(target@, document_dir@)),
        ),
{
    let path = resolve(target, document_dir);
    link_to_open(target, url_scheme(target).is_some(), file_url(path.as_str()))
}

/// The heading that is being read in the preview: the last of those at the top of the list that
/// are not below the activation line, or the first one. Headings that are not laid out are
/// passed over.
pub open spec fn active_from(above: Seq<Option<bool>>, active: int, index: int) -> int
    decreases above.len() - index,
{
    if index >= above.len() || above[index] == Some(false) {
        active
    } else if above[index] == Some(true) {
        active_from(above, index, index + 1)
    } else {
        active_from(above, active, index + 1)
    }
}

/// The heading to make active, from whether each one is above the activation line.
pub fn sync_preview_outline_active(above: &Vec<Option<bool>>) -> (active: Option<usize>)
    ensures
        active == (if above@.len() == 0 {
            None
        } else {
            Some(active_from(above@, 0, 0) as usize)
        }),
{
    if above.is_empty() {
        return None;
    }
    let mut active: usize = 0;
    let mut ordinal: usize = 0;
    while ordinal < above.len()
        invariant
            ordinal <= above@.len(),
            active_from(above@, active as int, ordinal as int) == active_from(above@, 0, 0),
        decreases above@.len() - ordinal,
    {
        match above[ordinal] {
            Some(true) => {
                active = ordinal;
            },
            Some(false) => {
                return Some(active);
            },
            None => {},
        }
        ordinal = ordinal + 1;
    }
    Some(active)
}

/// A text with something behind a line break has more than one line.
pub open spec fn has_second_line(text: Seq<char>) -> bool {
    exists|i: int| 0 <= i < text.len() - 1 && #[trigger] text[i] == '\n'
}

/// Whether a text has more than one line.
pub fn has_multiple_lines(text: &str) -> (multiple: bool)
    ensures
        multiple == has_second_line(text@),
{
    let mut broken = false;
    let ghost all = text@;
    for c in it: text.chars()
        invariant
            it.seq() == all,
            all == text@,
            broken == (exists|i: int| 0 <= i < it.index() && #[trigger] all[i] == '\n'),
            forall|i: int| 0 <= i < it.index() - 1 ==> #[trigger] all[i] != '\n',
    {
        if broken {
            assert(has_second_line(all)) by {
                let i = choose|i: int| 0 <= i < it.index() && #[trigger] all[i] == '\n';
                assert(all[i] == '\n');
            }
            return true;
        }
        if c == '\n' {
            assert(all[it.index() as int] == '\n');
            broken = true;
        }
    }
    assert(!has_second_line(all)) by {
        if has_second_line(all) {
            let i = choose|i: int| 0 <= i < all.len() - 1 && #[trigger] all[i] == '\n';
            assert(all[i] == '\n');
        }
    }
    false
}

/// What the window keeps besides the document.
#[derive(Debug)]
pub struct RootView {
    /// The revisions for which an inline parse has been scheduled.
    pub inline_schedule: InlineSchedule,
    /// Cached document text to avoid O(n) rope-to-string conversion every frame
    pub cached_doc_text: Option<(u64, String)>,
    /// Whether we're currently resizing the sidebar
    pub resizing_sidebar: bool,
    /// Whether the optional document outline is visible.
    pub outline_visible: bool,
    /// Whether the document is currently shown in read-only preview mode.
    pub preview_visible: bool,
    /// Whether the preview should receive focus after the next render.
    pub focus_preview_on_render: bool,
    /// Whether the preview's right-edge scroll indicator is currently visible.
    pub preview_scroll_indicator_visible: bool,
    /// Monotonic revision used to prevent an older hide timer from hiding a newer scroll event.
    pub preview_scroll_indicator_revision: u64,
}

/// The window, over the characters of its text.
#[verifier::ext_equal]
pub struct RootModel {
    pub scheduled_inline_revision: u64,
    pub cached_doc_text: Option<(u64, Seq<char>)>,
    pub resizing_sidebar: bool,
    pub outline_visible: bool,
    pub preview_visible: bool,
    pub focus_preview_on_render: bool,
    pub preview_scroll_indicator_visible: bool,
    pub preview_scroll_indicator_revision: u64,
}

impl View for RootView {
    type V = RootModel;

    open spec fn view(&self) -> RootModel {
        RootModel {
            scheduled_inline_revision: self.inline_schedule.scheduled_inline_revision,
            cached_doc_text: match self.cached_doc_text {
                Some((revision, text)) => Some((revision, text@)),
                None => None,
            },
            resizing_sidebar: self.resizing_sidebar,
            outline_visible: self.outline_visible,
            preview_visible: self.preview_visible,
            focus_preview_on_render: self.focus_preview_on_render,
            preview_scroll_indicator_visible: self.preview_scroll_indicator_visible,
            preview_scroll_indicator_revision: self.preview_scroll_indicator_revision,
        }
    }
}

impl RootModel {
    /// The text of the document, from the cache if it is of the document's revision.
    pub open spec fn doc_text(self, doc: DocumentView) -> Seq<char> {
        match self.cached_doc_text {
            Some((revision, text)) => if revision == doc.revision {
                text
            } else {
                doc.text
            },
            None => doc.text,
        }
    }
}

impl RootView {
    /// The window as the settings want it.
    pub fn new(outline_visible: bool, preview_visible: bool) -> (root: Self)
        ensures
            root@ == (RootModel {
                scheduled_inline_revision: 0,
                cached_doc_text: None,
                resizing_sidebar: false,
                outline_visible,
                preview_visible,
                focus_preview_on_render: true,
                preview_scroll_indicator_visible: false,
                preview_scroll_indicator_revision: 0,
            }),
    {
        RootView {
            inline_schedule: InlineSchedule::new(),
            cached_doc_text: None,
            resizing_sidebar: false,
            outline_visible,
            preview_visible,
            focus_preview_on_render: true,
            preview_scroll_indicator_visible: false,
            preview_scroll_indicator_revision: 0,
        }
    }

    pub fn new_document() -> (document: DocumentState)
        ensures
            document@ == crate::document::empty_document(),
    {
        DocumentState::new_empty()
    }

    pub fn new_inline_markdown() -> (state: InlineMarkdownState)
        ensures
            state.spans@ == Seq::<SyntaxSpan>::empty(),
            state.source_revision == 0,
            state.parse_millis == 0,
            state.dropped_updates == 0,
    {
        InlineMarkdownState::new()
    }

    pub fn build_editor() -> (editor: EditorView)
        ensures
            editor@ == crate::editor::new_editor(),
            editor.wf(),
    {
        EditorView::new()
    }

    pub fn build_file_explorer() -> (explorer: crate::file_explorer::FileExplorerView)
        ensures
            explorer@ == (crate::file_explorer::ExplorerModel {
                cached_outline: None,
                active_outline_ordinal: None,
            }),
    {
        crate::file_explorer::FileExplorerView::new()
    }

    /// Toggles the optional document outline without changing the document state. Returns
    /// whether it is visible now, which the settings keep.
    pub fn toggle_outline(&mut self) -> (visible: bool)
        ensures
            visible == !old(self)@.outline_visible,
            final(self)@ == (RootModel {
                outline_visible: visible,
                resizing_sidebar: false,
                ..old(self)@
            }),
    {
        self.outline_visible = !self.outline_visible;
        self.resizing_sidebar = false;
        self.outline_visible
    }

    /// Switches between the rendered preview and the editable Markdown source view. Returns
    /// whether the preview is visible now, which the settings keep.
    pub fn toggle_preview(&mut self) -> (visible: bool)
        ensures
            visible == !old(self)@.preview_visible,
            final(self)@ == (RootModel {
                preview_visible: visible,
                focus_preview_on_render: visible,
                ..old(self)@
            }),
    {
        self.preview_visible = !self.preview_visible;
        self.focus_preview_on_render = self.preview_visible;
        self.preview_visible
    }

    /// Whether the preview is to receive the focus, which happens once.
    pub fn take_preview_focus(&mut self) -> (focus: bool)
        ensures
            focus == (old(self)@.preview_visible && old(self)@.focus_preview_on_render),
            final(self)@ == (RootModel {
                focus_preview_on_render: old(self)@.focus_preview_on_render && !focus,
                ..old(self)@
            }),
    {
        if self.preview_visible && self.focus_preview_on_render {
            self.focus_preview_on_render = false;
            true
        } else {
            false
        }
    }

    /// Shows the preview scroll indicator after a wheel-scroll event. Returns the number by
    /// which a timer hides it again.
    pub fn reveal_preview_scroll_indicator(&mut self) -> (revision: u64)
        ensures
            revision == crate::document::next_revision(
                old(self)@.preview_scroll_indicator_revision,
            ),
            final(self)@ == (RootModel {
                preview_scroll_indicator_visible: true,
                preview_scroll_indicator_revision: revision,
                ..old(self)@
            }),
    {
        self.preview_scroll_indicator_visible = true;
        self.preview_scroll_indicator_revision =
        self.preview_scroll_indicator_revision.wrapping_add(1);
        self.preview_scroll_indicator_revision
    }

    /// Hides the preview scroll indicator, unless it has been shown again since. Returns whether
    /// it did.
    pub fn hide_preview_scroll_indicator(&mut self, revision: u64) -> (hidden: bool)
        ensures
            hidden == (old(self)@.preview_scroll_indicator_revision == revision),
            final(self)@ == (RootModel {
                preview_scroll_indicator_visible: old(self)@.preview_scroll_indicator_visible
                    && !hidden,
                ..old(self)@
            }),
    {
        if self.preview_scroll_indicator_revision == revision {
            self.preview_scroll_indicator_visible = false;
            true
        } else {
            false
        }
    }

    /// Begins or ends resizing the sidebar. Returns whether that changed anything.
    pub fn set_resizing_sidebar(&mut self, resizing: bool) -> (changed: bool)
        ensures
            changed == (old(self)@.resizing_sidebar != resizing),
            final(self)@ == (RootModel { resizing_sidebar: resizing, ..old(self)@ }),
    {
        let changed = self.resizing_sidebar != resizing;
        self.resizing_sidebar = resizing;
        changed
    }

    /// The text of the document, which is read only when the document has changed.
    pub fn document_text(&mut self, doc: &DocumentState) -> (text: String)
        ensures
            text@ == old(self)@.doc_text(doc@),
            final(self)@ == (RootModel {
                cached_doc_text: Some((doc@.revision, text@)),
                ..old(self)@
            }),
    {
        match &self.cached_doc_text {
            Some((revision, text)) => {
                if *revision == doc.revision {
                    return text.clone();
                }
            },
            None => {},
        }
        let text = doc.text();
        self.cached_doc_text = Some((doc.revision, text.clone()));
        text
    }

    /// Says how the source of the document is to be parsed for the editor.
    pub fn schedule_inline_parse(
        &mut self,
        doc: &DocumentState,
        inline: &InlineMarkdownState,
        text: &str,
    ) -> (parse: InlineParse)
        ensures
            parse is NotNeeded == (doc@.revision == inline.source_revision || doc@.revision <= old(
                self,
            )@.scheduled_inline_revision),
            parse is Now ==> vstd::utf8::encode_utf8(text@).len()
                <= crate::inline_markdown::INLINE_SYNC_PARSE_MAX_BYTES,
            parse is Later ==> vstd::utf8::encode_utf8(text@).len()
                > crate::inline_markdown::INLINE_SYNC_PARSE_MAX_BYTES,
            final(self)@ == (RootModel {
                scheduled_inline_revision: if parse is NotNeeded {
                    old(self)@.scheduled_inline_revision
                } else {
                    doc@.revision
                },
                ..old(self)@
            }),
    {
        self.inline_schedule.schedule(
            doc.revision,
            inline.source_revision,
            text.as_bytes().len(),
        )
    }
}

} // verus!
