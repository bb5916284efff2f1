//! What the window makes of a document's file, of answers, of links and of dropped paths.
use crate::document::DocumentView;
use crate::editor_keys::typed;
use crate::paths::{
    ascii_lower, ascii_lower_text, extended_path, extension_of, file_name_of, is_absolute_path,
    joined_path, last_index, name_extension, name_stem, names_image, names_markdown, text_of,
    texts_of,
};
use crate::root::{
    active_from, asks_to_discard, asks_to_save, has_second_line, is_image_of, lines,
    markdown_from, name_of, opened_link, resolved, save_path, title,
};
use crate::root::{DialogChoice, PreviewImage, RootModel};
use crate::rope::text_hash;
use vstd::prelude::*;

verus! {

/// The title is the name of the file, or that of an unnamed one, and an unsaved document has a
/// mark behind it that a saved one has not.
pub proof fn the_title_marks_unsaved_documents(name: Seq<char>, is_dirty: bool)
    ensures
        title(Some(name), false) == name,
        title(Some(name), true) == name + seq![' ', '•'],
        title(None, is_dirty) == title(Some("untitled.md"@), is_dirty),
        name_of(None) is None,
        name_of(Some(name)) == file_name_of(name),
{
    reveal_strlit("");
    reveal_strlit(" •");
    assert(name + ""@ =~= name);
    assert(" •"@ =~= seq![' ', '•']);
}

/// A path with an extension is saved as it is, and only one without gets that of Markdown.
pub proof fn paths_keep_their_extension(path: Seq<char>)
    ensures
        extension_of(path) is Some ==> save_path(path) == path,
        extension_of(path) is None ==> save_path(path) == extended_path(path, "md"@),
{
}

/// A saved document has the path that it was saved at and the hash of its text, and is not dirty.
/// Its text, its cursor and its history are as they were.
pub proof fn saving_notes_path_and_text(document: DocumentView, path: Seq<char>)
    ensures
        ({
            let after = document.saved_at(path);
            &&& after.path == Some(path)
            &&& after.last_saved_hash == text_hash(document.text)
            &&& !after.dirty
            &&& after.text == document.text
            &&& after.cursor == document.cursor
            &&& after.selection == document.selection
            &&& after.history == document.history
            &&& after.pending == document.pending
            &&& after.revision == document.revision
        }),
{
}

/// An opened document holds the file and its path, is saved, has the cursor at the end and nothing
/// selected, and cannot be undone.
pub proof fn opening_shows_the_file(
    document: DocumentView,
    path: Option<Seq<char>>,
    text: Seq<char>,
)
    requires
        text.len() <= usize::MAX,
    ensures
        ({
            let after = document.opened(path, text);
            &&& after.path == path
            &&& after.text == text
            &&& after.last_saved_hash == text_hash(text)
            &&& !after.dirty
            &&& after.cursor == text.len()
            &&& after.selection is None
            &&& after.selection_anchor is None
            &&& after.pending is None
            &&& after.history.undo.len() == 0
            &&& after.history.redo.len() == 0
            &&& after.revision != document.revision
        }),
{
}

/// Changes are saved if the dialog was confirmed, answered with yes or with its button to save.
/// They are let go if it was answered with no or with its button not to save. No answer asks for
/// both, and any other answer for neither.
pub proof fn answers_say_what_to_do(choice: DialogChoice)
    ensures
        asks_to_save(DialogChoice::Confirmed),
        asks_to_save(DialogChoice::Yes),
        !asks_to_save(DialogChoice::No),
        !asks_to_save(DialogChoice::Other),
        asks_to_discard(DialogChoice::No),
        !asks_to_discard(DialogChoice::Confirmed),
        !asks_to_discard(DialogChoice::Yes),
        !asks_to_discard(DialogChoice::Other),
        choice matches DialogChoice::Custom(label) ==> {
            &&& asks_to_save(choice) <==> label@ == seq!['S', 'a', 'v', 'e']
            &&& asks_to_discard(choice) <==> label@ == seq![
                'D',
                'o',
                'n',
                '\'',
                't',
                ' ',
                'S',
                'a',
                'v',
                'e',
            ]
        },
        !(asks_to_save(choice) && asks_to_discard(choice)),
{
    reveal_strlit("Save");
    reveal_strlit("Don't Save");
    assert("Save"@ =~= seq!['S', 'a', 'v', 'e']);
    assert("Don't Save"@ =~= seq!['D', 'o', 'n', '\'', 't', ' ', 'S', 'a', 'v', 'e']);
    assert("Save"@.len() != "Don't Save"@.len());
}

/// Of the paths that are dropped, the first one of a Markdown file is opened.
pub proof fn the_first_markdown_file_is_opened(paths: Seq<Seq<char>>, index: int)
    requires
        0 <= index <= paths.len(),
    ensures
        index <= markdown_from(paths, index) <= paths.len(),
        forall|i: int|
            index <= i < markdown_from(paths, index) ==> !names_markdown(
                extension_of(#[trigger] paths[i]),
            ),
        markdown_from(paths, index) < paths.len() ==> names_markdown(
            extension_of(paths[markdown_from(paths, index)]),
        ),
    decreases paths.len() - index,
{
    if index < paths.len() && !names_markdown(extension_of(paths[index])) {
        the_first_markdown_file_is_opened(paths, index + 1);
    }
}

/// Lines come one behind the other, with a line break between each two and none at the end.
pub proof fn line_breaks_separate_lines(texts: Seq<Seq<char>>, text: Seq<char>)
    ensures
        lines(Seq::empty()).len() == 0,
        lines(seq![text]) == text,
        texts.len() > 0 ==> lines(texts.push(text)) == lines(texts) + seq!['\n'] + text,
{
    reveal_strlit("\n");
    assert("\n"@ =~= seq!['\n']);
    assert(texts.push(text).drop_last() =~= texts);
}

/// Absolute paths stay as they are, and others are taken from the directory of the document.
pub proof fn relative_paths_start_at_the_document(path: Seq<char>, document_dir: Seq<char>)
    ensures
        is_absolute_path(path) ==> resolved(path, document_dir) == path,
        !is_absolute_path(path) ==> resolved(path, document_dir) == joined_path(
            document_dir,
            path,
        ),
{
}

/// An image is a file where its source is a URL of one, the source itself where that is another
/// URL or starts with two slashes, and a path otherwise.
pub proof fn images_are_files_sources_or_paths(
    image: PreviewImage,
    source: Seq<char>,
    scheme: Option<Seq<char>>,
    url_path: Option<Seq<u8>>,
    path: Seq<char>,
)
    requires
        is_image_of(image, source, scheme, url_path, path),
    ensures
        ({
            let is_file = scheme == Some(seq!['f', 'i', 'l', 'e']) && url_path is Some;
            let has_no_scheme = source.len() >= 2 && source[0] == '/' && source[1] == '/';
            &&& image is File <==> is_file
            &&& image matches PreviewImage::File(bytes) ==> bytes@ == url_path->0
            &&& image is Source <==> !is_file && (scheme is Some || has_no_scheme)
            &&& image matches PreviewImage::Source(text) ==> text@ == source
            &&& image is Path <==> scheme is None && !has_no_scheme
            &&& image matches PreviewImage::Path(text) ==> text@ == path
        }),
{
    reveal_strlit("file");
    reveal_strlit("//");
    assert("file"@ =~= seq!['f', 'i', 'l', 'e']);
    assert("//"@ =~= seq!['/', '/']);
    if source.len() >= 2 {
        assert(source.take(2)[0] == source[0] && source.take(2)[1] == source[1]);
        if source[0] == '/' && source[1] == '/' {
            assert(source.take(2) =~= seq!['/', '/']);
        }
    }
}

/// A link within the document, one with two slashes at its start and a URL are opened as they
/// are, and so is a path that no file URL can be made of. Any other path is opened as a file.
pub proof fn links_are_opened_as_they_are_or_as_files(
    target: Seq<char>,
    is_url: bool,
    url: Option<Seq<char>>,
)
    ensures
        ({
            let opened = opened_link(target, is_url, url);
            let is_fragment = target.len() > 0 && target[0] == '#';
            let has_no_scheme = target.len() >= 2 && target[0] == '/' && target[1] == '/';
            &&& is_fragment || has_no_scheme || is_url || url is None ==> opened == target
            &&& !is_fragment && !has_no_scheme && !is_url && url is Some ==> Some(opened) == url
        }),
{
    reveal_strlit("#");
    reveal_strlit("//");
    assert("#"@ =~= seq!['#']);
    assert("//"@ =~= seq!['/', '/']);
    if target.len() > 0 {
        assert(target.take(1)[0] == target[0]);
        if target[0] == '#' {
            assert(target.take(1) =~= seq!['#']);
        }
    }
    if target.len() >= 2 {
        assert(target.take(2)[0] == target[0] && target.take(2)[1] == target[1]);
        if target[0] == '/' && target[1] == '/' {
            assert(target.take(2) =~= seq!['/', '/']);
        }
    }
}

/// A heading has been passed: it is above the line, and none before it is below.
pub open spec fn is_passed(above: Seq<Option<bool>>, index: int) -> bool {
    &&& 0 <= index < above.len()
    &&& above[index] == Some(true)
    &&& forall|i: int| 0 <= i < index ==> #[trigger] above[i] != Some(false)
}

proof fn the_search_passes_headings(above: Seq<Option<bool>>, active: int, index: int)
    requires
        0 <= active <= index <= above.len(),
        active < index ==> active == 0 || is_passed(above, active),
        forall|i: int| active < i < index ==> !#[trigger] is_passed(above, i),
        forall|i: int| 0 <= i < index ==> #[trigger] above[i] != Some(false),
    ensures
        ({
            let found = active_from(above, active, index);
            &&& found == active || is_passed(above, found)
            &&& active <= found
            &&& forall|i: int| found < i ==> !#[trigger] is_passed(above, i)
        }),
    decreases above.len() - index,
{
    if index < above.len() && above[index] != Some(false) {
        if above[index] == Some(true) {
            assert(is_passed(above, index));
            the_search_passes_headings(above, index, index + 1);
        } else {
            if active == index {
                the_search_passes_headings_from(above, active, index + 1);
            } else {
                assert(!is_passed(above, index));
                the_search_passes_headings(above, active, index + 1);
            }
        }
    } else {
        assert forall|i: int| active < i implies !#[trigger] is_passed(above, i) by {
            if index < above.len() && i > index {
                assert(above[index] == Some(false));
            }
        }
    }
}

/// As long as no heading has been passed the first one is active.
proof fn the_search_passes_headings_from(above: Seq<Option<bool>>, active: int, index: int)
    requires
        0 <= active < index <= above.len(),
        forall|i: int| active < i < index ==> !#[trigger] is_passed(above, i),
        forall|i: int| 0 <= i < index ==> #[trigger] above[i] != Some(false),
    ensures
        ({
            let found = active_from(above, active, index);
            &&& found == active || is_passed(above, found)
            &&& active <= found
            &&& forall|i: int| found < i ==> !#[trigger] is_passed(above, i)
        }),
    decreases above.len() - index,
{
    if index < above.len() && above[index] != Some(false) {
        if above[index] == Some(true) {
            assert(is_passed(above, index));
            the_search_passes_headings(above, index, index + 1);
        } else {
            assert(!is_passed(above, index));
            the_search_passes_headings_from(above, active, index + 1);
        }
    } else {
        assert forall|i: int| active < i implies !#[trigger] is_passed(above, i) by {
            if index < above.len() && i > index {
                assert(above[index] == Some(false));
            }
        }
    }
}

/// The heading that is being read in the preview is the last one that has been passed, or the
/// first one if none has.
pub proof fn the_last_passed_heading_is_read(above: Seq<Option<bool>>)
    ensures
        ({
            let read = active_from(above, 0, 0);
            &&& forall|i: int| #[trigger] is_passed(above, i) ==> i <= read
            &&& (exists|i: int| is_passed(above, i)) ==> is_passed(above, read)
            &&& !(exists|i: int| is_passed(above, i)) ==> read == 0
        }),
{
    the_search_passes_headings(above, 0, 0);
    let read = active_from(above, 0, 0);
    if exists|i: int| is_passed(above, i) {
        let i = choose|i: int| is_passed(above, i);
        if read == 0 {
            assert(i <= read);
        }
    }
}

/// A text has a second line exactly if it goes on behind a line break.
pub proof fn a_second_line_follows_a_break(text: Seq<char>)
    ensures
        has_second_line(text) <==> exists|first: Seq<char>, second: Seq<char>|
            #![trigger first + seq!['\n'] + second]
            second.len() > 0 && text == first + seq!['\n'] + second,
{
    if has_second_line(text) {
        let i = choose|i: int| 0 <= i < text.len() - 1 && #[trigger] text[i] == '\n';
        let first = text.take(i);
        let second = text.skip(i + 1);
        assert(text =~= first + seq!['\n'] + second);
    }
    if exists|first: Seq<char>, second: Seq<char>|
        #![trigger first + seq!['\n'] + second]
        second.len() > 0 && text == first + seq!['\n'] + second {
        let (first, second) = choose|first: Seq<char>, second: Seq<char>|
            #![trigger first + seq!['\n'] + second]
            second.len() > 0 && text == first + seq!['\n'] + second;
        assert(text[first.len() as int] == '\n');
    }
}

proof fn the_last_place_is_found(text: Seq<char>, c: char, end: int)
    requires
        0 <= end <= text.len(),
    ensures
        -1 <= last_index(text, c, end) < end || (end == 0 && last_index(text, c, end) == -1),
        last_index(text, c, end) >= 0 ==> text[last_index(text, c, end)] == c,
        forall|i: int| last_index(text, c, end) < i < end ==> #[trigger] text[i] != c,
    decreases end,
{
    if end > 0 && text[end - 1] != c {
        the_last_place_is_found(text, c, end - 1);
    }
}

/// An extension stands behind the last dot of a name and has no dot in it, and the stem stands
/// before that dot and is not empty. A name without such a dot is all stem.
pub proof fn a_name_is_its_stem_and_its_extension(name: Seq<char>)
    ensures
        name_extension(name) matches Some(extension) ==> {
            &&& name == name_stem(name) + seq!['.'] + extension
            &&& name_stem(name).len() > 0
            &&& !extension.contains('.')
        },
        name_extension(name) is None ==> {
            &&& name_stem(name) == name
            &&& forall|i: int| 0 < i < name.len() ==> #[trigger] name[i] != '.'
        },
{
    let dot = last_index(name, '.', name.len() as int);
    the_last_place_is_found(name, '.', name.len() as int);
    if dot > 0 {
        assert(name =~= name_stem(name) + seq!['.'] + name.skip(dot + 1));
        let extension = name.skip(dot + 1);
        if extension.contains('.') {
            let i = choose|i: int| 0 <= i < extension.len() && extension[i] == '.';
            assert(name[dot + 1 + i] == '.');
        }
    }
}

/// Two characters are the same ASCII letter in upper and lower case, or the same character.
pub open spec fn same_letter(a: char, b: char) -> bool {
    ||| a == b
    ||| 'A' <= a <= 'Z' && b as int == a as int + 0x20
    ||| 'A' <= b <= 'Z' && a as int == b as int + 0x20
}

/// Two texts are the same but for the case of ASCII letters.
pub open spec fn same_but_for_case(first: Seq<char>, second: Seq<char>) -> bool {
    &&& first.len() == second.len()
    &&& forall|i: int| 0 <= i < first.len() ==> same_letter(#[trigger] first[i], second[i])
}

proof fn lower_case_is_the_same_letter(a: char, b: char)
    requires
        !('A' <= b <= 'Z'),
    ensures
        ascii_lower(a) == b <==> same_letter(a, b),
{
    if 'A' <= a <= 'Z' {
        assert(ascii_lower(a) as int == a as int + 0x20);
    }
}

/// A text in lower case is another one that is the same but for case.
proof fn lower_case_is_compared(text: Seq<char>, lower: Seq<char>)
    requires
        forall|i: int| 0 <= i < lower.len() ==> !('A' <= #[trigger] lower[i] <= 'Z'),
    ensures
        ascii_lower_text(text) == lower <==> same_but_for_case(text, lower),
{
    if ascii_lower_text(text) == lower {
        assert forall|i: int| 0 <= i < text.len() implies same_letter(
            #[trigger] text[i],
            lower[i],
        ) by {
            assert(ascii_lower_text(text)[i] == ascii_lower(text[i]));
            lower_case_is_the_same_letter(text[i], lower[i]);
        }
    }
    if same_but_for_case(text, lower) {
        assert forall|i: int| 0 <= i < text.len() implies #[trigger] ascii_lower_text(text)[i]
            == lower[i] by {
            assert(same_letter(text[i], lower[i]));
            lower_case_is_the_same_letter(text[i], lower[i]);
        }
        assert(ascii_lower_text(text) =~= lower);
    }
}

/// The extensions of Markdown files, in any case.
pub proof fn markdown_is_known_by_its_extension(extension: Seq<char>)
    ensures
        !names_markdown(None),
        names_markdown(Some(extension)) <==> {
            ||| same_but_for_case(extension, "md"@)
            ||| same_but_for_case(extension, "markdown"@)
            ||| same_but_for_case(extension, "mdown"@)
            ||| same_but_for_case(extension, "mkd"@)
        },
{
    reveal_strlit("md");
    lower_case_is_compared(extension, "md"@);
    reveal_strlit("markdown");
    lower_case_is_compared(extension, "markdown"@);
    reveal_strlit("mdown");
    lower_case_is_compared(extension, "mdown"@);
    reveal_strlit("mkd");
    lower_case_is_compared(extension, "mkd"@);
}

/// The extensions of images, in any case.
pub proof fn images_are_known_by_their_extension(extension: Seq<char>)
    ensures
        !names_image(None),
        names_image(Some(extension)) <==> {
            ||| same_but_for_case(extension, "png"@)
            ||| same_but_for_case(extension, "jpg"@)
            ||| same_but_for_case(extension, "jpeg"@)
            ||| same_but_for_case(extension, "gif"@)
            ||| same_but_for_case(extension, "webp"@)
            ||| same_but_for_case(extension, "bmp"@)
            ||| same_but_for_case(extension, "tif"@)
            ||| same_but_for_case(extension, "tiff"@)
            ||| same_but_for_case(extension, "heic"@)
            ||| same_but_for_case(extension, "heif"@)
            ||| same_but_for_case(extension, "svg"@)
            ||| same_but_for_case(extension, "avif"@)
            ||| same_but_for_case(extension, "ico"@)
        },
{
    reveal_strlit("png");
    lower_case_is_compared(extension, "png"@);
    reveal_strlit("jpg");
    lower_case_is_compared(extension, "jpg"@);
    reveal_strlit("jpeg");
    lower_case_is_compared(extension, "jpeg"@);
    reveal_strlit("gif");
    lower_case_is_compared(extension, "gif"@);
    reveal_strlit("webp");
    lower_case_is_compared(extension, "webp"@);
    reveal_strlit("bmp");
    lower_case_is_compared(extension, "bmp"@);
    reveal_strlit("tif");
    lower_case_is_compared(extension, "tif"@);
    reveal_strlit("tiff");
    lower_case_is_compared(extension, "tiff"@);
    reveal_strlit("heic");
    lower_case_is_compared(extension, "heic"@);
    reveal_strlit("heif");
    lower_case_is_compared(extension, "heif"@);
    reveal_strlit("svg");
    lower_case_is_compared(extension, "svg"@);
    reveal_strlit("avif");
    lower_case_is_compared(extension, "avif"@);
    reveal_strlit("ico");
    lower_case_is_compared(extension, "ico"@);
}

/// A text that is there is known by its characters, also where it is optional or in a list.
pub proof fn texts_are_known_by_their_characters(text: String, texts: Seq<String>, k: int)
    requires
        0 <= k < texts.len(),
    ensures
        text_of(Some(text)) == Some(text@),
        text_of(None) is None,
        typed(Some(text)) == Some(text@),
        typed(None) is None,
        texts_of(texts).len() == texts.len(),
        texts_of(texts)[k] == texts[k]@,
{
}

/// The window reads the text of the document itself where it has cached none.
pub proof fn without_a_cache_the_document_is_read(root: RootModel, doc: DocumentView)
    requires
        root.cached_doc_text matches Some((revision, text)) ==> revision != doc.revision,
    ensures
        root.doc_text(doc) == doc.text,
{
}

} // verus!
