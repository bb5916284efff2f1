//! Paths and URLs as plain strings. Paths are those of the platform that the crate is built
//! for.
use crate::text::{chars_of, same_text, string_of};
use camino::{Utf8Path, Utf8PathBuf};
use url::Url;
use vstd::prelude::*;
use vstd::string::*;

verus! {

/// The last component of a path, as `Utf8Path::file_name` gives it.
pub uninterp spec fn file_name_of(path: Seq<char>) -> Option<Seq<char>>;

/// A path without its last component, as `Utf8Path::parent` gives it.
pub uninterp spec fn parent_of(path: Seq<char>) -> Option<Seq<char>>;

/// The components of a path, as `Utf8Path::components` gives them.
pub uninterp spec fn components_of(path: Seq<char>) -> Seq<Seq<char>>;

/// Whether a path does not depend on the current directory, as `Utf8Path::is_absolute` says.
pub uninterp spec fn is_absolute_path(path: Seq<char>) -> bool;

/// Whether two paths have the same components, as `Utf8Path`'s `==` says.
pub uninterp spec fn is_same_path(first: Seq<char>, second: Seq<char>) -> bool;

/// A path behind another, as `Utf8Path::join` puts it.
pub uninterp spec fn joined_path(base: Seq<char>, path: Seq<char>) -> Seq<char>;

/// A path with another extension, as `Utf8PathBuf::set_extension` makes it.
pub uninterp spec fn extended_path(path: Seq<char>, extension: Seq<char>) -> Seq<char>;

/// The scheme of a text that `Url::parse` accepts.
pub uninterp spec fn url_scheme_of(text: Seq<char>) -> Option<Seq<char>>;

/// The bytes of the path that `Url::to_file_path` gives for a URL.
pub uninterp spec fn url_path_of(text: Seq<char>) -> Option<Seq<u8>>;

/// The URL that `Url::from_file_path` gives for a path.
pub uninterp spec fn file_url_of(path: Seq<char>) -> Option<Seq<char>>;

/// The last place of a character in a text before the given index, or -1.
pub open spec fn last_index(text: Seq<char>, c: char, end: int) -> int
    decreases end,
{
    if end <= 0 || text[end - 1] == c {
        end - 1
    } else {
        last_index(text, c, end - 1)
    }
}

/// What stands behind the last dot of a file name. A dot at the start does not count.
pub open spec fn name_extension(name: Seq<char>) -> Option<Seq<char>> {
    let dot = last_index(name, '.', name.len() as int);
    if dot <= 0 {
        None
    } else {
        Some(name.skip(dot + 1))
    }
}

/// What stands before the last dot of a file name. A dot at the start does not count.
pub open spec fn name_stem(name: Seq<char>) -> Seq<char> {
    let dot = last_index(name, '.', name.len() as int);
    if dot <= 0 {
        name
    } else {
        name.take(dot)
    }
}

/// The extension of a path's file name.
pub open spec fn extension_of(path: Seq<char>) -> Option<Seq<char>> {
    match file_name_of(path) {
        Some(name) => name_extension(name),
        None => None,
    }
}

/// The stem of a path's file name.
pub open spec fn stem_of(path: Seq<char>) -> Option<Seq<char>> {
    match file_name_of(path) {
        Some(name) => Some(name_stem(name)),
        None => None,
    }
}

/// The characters of an optional string.
pub open spec fn text_of(text: Option<String>) -> Option<Seq<char>> {
    match text {
        Some(text) => Some(text@),
        None => None,
    }
}

/// The characters of an optional reference to a string.
pub open spec fn ref_text_of(text: Option<&str>) -> Option<Seq<char>> {
    match text {
        Some(text) => Some(text@),
        None => None,
    }
}

/// `Utf8Path::file_name` is the last component of a path, if that is a normal one.
#[verifier::external_body]
pub(crate) fn file_name(path: &str) -> (name: Option<String>)
    ensures
        text_of(name) == file_name_of(path@),
{
    Utf8Path::new(path).file_name().map(str::to_owned)
}

/// `Utf8Path::parent` is a path without its last component. There is none for a root and for
/// an empty path.
#[verifier::external_body]
pub(crate) fn parent(path: &str) -> (parent: Option<String>)
    ensures
        text_of(parent) == parent_of(path@),
{
    Utf8Path::new(path).parent().map(|parent| parent.as_str().to_owned())
}

/// `Utf8Path::extension` is what stands behind the last dot of the file name, unless that is
/// its first character.
#[verifier::external_body]
pub(crate) fn extension(path: &str) -> (extension: Option<String>)
    ensures
        text_of(extension) == extension_of(path@),
{
    Utf8Path::new(path).extension().map(str::to_owned)
}

/// `Utf8Path::file_stem` is what stands before the last dot of the file name, unless that is
/// its first character.
#[verifier::external_body]
pub(crate) fn file_stem(path: &str) -> (stem: Option<String>)
    ensures
        text_of(stem) == stem_of(path@),
{
    Utf8Path::new(path).file_stem().map(str::to_owned)
}

/// The characters of a list of strings.
pub open spec fn texts_of(texts: Seq<String>) -> Seq<Seq<char>> {
    texts.map_values(|text: String| text@)
}

/// `Utf8Path::components` are the parts of a path, each as the text that it has in the path.
#[verifier::external_body]
pub(crate) fn components(path: &str) -> (parts: Vec<String>)
    ensures
        texts_of(parts@) == components_of(path@),
{
    Utf8Path::new(path).components().map(|part| part.as_str().to_owned()).collect()
}

/// `Utf8Path::is_absolute` says whether a path does not depend on the current directory.
#[verifier::external_body]
pub(crate) fn is_absolute(path: &str) -> (absolute: bool)
    ensures
        absolute == is_absolute_path(path@),
{
    Utf8Path::new(path).is_absolute()
}

/// `Utf8Path`'s `==` compares the components of two paths, each as the platform compares it. A
/// path is the same as itself.
#[verifier::external_body]
pub(crate) fn same_path(first: &str, second: &str) -> (same: bool)
    ensures
        same == is_same_path(first@, second@),
        first@ == second@ ==> same,
{
    Utf8Path::new(first) == Utf8Path::new(second)
}

/// `Utf8Path::join` is a path behind another.
#[verifier::external_body]
pub(crate) fn join(base: &str, path: &str) -> (joined: String)
    ensures
        joined@ == joined_path(base@, path@),
{
    Utf8Path::new(base).join(path).into_string()
}

/// `Utf8PathBuf::set_extension` puts an extension in the place of that of the file name, and
/// leaves a path without a file name alone. It panics where the extension holds a separator.
#[verifier::external_body]
pub(crate) fn set_extension(path: &str, extension: &str) -> (extended: String)
    requires
        extension@.len() > 0,
        !extension@.contains('/'),
        !extension@.contains('\\'),
    ensures
        extended@ == extended_path(path@, extension@),
        file_name_of(path@) is None ==> extended@ == path@,
        file_name_of(path@) matches Some(name) ==> file_name_of(extended@) == Some(
            name_stem(name).push('.') + extension@,
        ),
{
    let mut extended = Utf8PathBuf::from(path);
    extended.set_extension(extension);
    extended.into_string()
}

/// `Url::parse` accepts a text that is an absolute URL, whose scheme `Url::scheme` is.
#[verifier::external_body]
pub(crate) fn url_scheme(text: &str) -> (scheme: Option<String>)
    ensures
        text_of(scheme) == url_scheme_of(text@),
{
    match Url::parse(text) {
        Ok(url) => Some(url.scheme().to_owned()),
        Err(_) => None,
    }
}

/// The bytes of an optional list.
pub open spec fn bytes_of(bytes: Option<Vec<u8>>) -> Option<Seq<u8>> {
    match bytes {
        Some(bytes) => Some(bytes@),
        None => None,
    }
}

/// `Url::to_file_path` is the path of a URL, given here by its bytes.
#[verifier::external_body]
pub(crate) fn url_file_path(text: &str) -> (path: Option<Vec<u8>>)
    ensures
        bytes_of(path) == url_path_of(text@),
{
    match Url::parse(text) {
        Ok(url) => match url.to_file_path() {
            Ok(path) => Some(path.into_os_string().into_encoded_bytes()),
            Err(_) => None,
        },
        Err(_) => None,
    }
}

/// `Url::from_file_path` is the URL of an absolute path. Other paths have none.
#[verifier::external_body]
pub(crate) fn file_url(path: &str) -> (url: Option<String>)
    ensures
        text_of(url) == file_url_of(path@),
        !is_absolute_path(path@) ==> url is None,
{
    match Url::from_file_path(path) {
        Ok(url) => Some(url.as_str().to_owned()),
        Err(_) => None,
    }
}

/// An ASCII letter in lower case.
pub open spec fn ascii_lower(c: char) -> char {
    if 'A' <= c <= 'Z' {
        ((c as u32) + 32) as char
    } else {
        c
    }
}

/// A text with its ASCII letters in lower case.
pub open spec fn ascii_lower_text(text: Seq<char>) -> Seq<char> {
    text.map_values(|c: char| ascii_lower(c))
}

fn to_ascii_lower(text: &str) -> (lower: String)
    ensures
        lower@ == ascii_lower_text(text@),
{
    let chars = chars_of(text);
    let mut lower: Vec<char> = Vec::new();
    let mut i: usize = 0;
    while i < chars.len()
        invariant
            i <= chars@.len(),
            chars@ == text@,
            lower@ == ascii_lower_text(text@.take(i as int)),
        decreases chars@.len() - i,
    {
        let c = chars[i];
        let small = lower_letter(c);
        lower.push(small);
        i = i + 1;
        assert(lower@ =~= ascii_lower_text(text@.take(i as int)));
    }
    assert(text@.take(i as int) =~= text@);
    string_of(lower.as_slice())
}

fn lower_letter(c: char) -> (lower: char)
    ensures
        lower == ascii_lower(c),
{
    if 'A' <= c && c <= 'Z' {
        ((c as u8) + 32) as char
    } else {
        c
    }
}

/// The extensions of Markdown files, in lower case.
pub open spec fn is_markdown_extension(extension: Seq<char>) -> bool {
    ||| extension == "md"@
    ||| extension == "markdown"@
    ||| extension == "mdown"@
    ||| extension == "mkd"@
}

/// The extensions of images, in lower case.
pub open spec fn is_image_extension(extension: Seq<char>) -> bool {
    ||| extension == "png"@
    ||| extension == "jpg"@
    ||| extension == "jpeg"@
    ||| extension == "gif"@
    ||| extension == "webp"@
    ||| extension == "bmp"@
    ||| extension == "tif"@
    ||| extension == "tiff"@
    ||| extension == "heic"@
    ||| extension == "heif"@
    ||| extension == "svg"@
    ||| extension == "avif"@
    ||| extension == "ico"@
}

/// Whether the extension of a path is one of Markdown files, in any case.
pub open spec fn names_markdown(extension: Option<Seq<char>>) -> bool {
    extension matches Some(extension) && is_markdown_extension(ascii_lower_text(extension))
}

/// Whether the extension of a path is one of images, in any case.
pub open spec fn names_image(extension: Option<Seq<char>>) -> bool {
    extension matches Some(extension) && is_image_extension(ascii_lower_text(extension))
}

/// Whether an extension is one of Markdown files.
pub fn has_markdown_extension(extension: &Option<String>) -> (markdown: bool)
    ensures
        markdown == names_markdown(text_of(*extension)),
{
    match extension {
        Some(extension) => {
            let lower = to_ascii_lower(extension.as_str());
            let lower = lower.as_str();
            same_text(lower, "md") || same_text(lower, "markdown") || same_text(lower, "mdown")
                || same_text(lower, "mkd")
        },
        None => false,
    }
}

/// Whether an extension is one of images.
pub fn has_image_extension(extension: &Option<String>) -> (image: bool)
    ensures
        image == names_image(text_of(*extension)),
{
    match extension {
        Some(extension) => {
            let lower = to_ascii_lower(extension.as_str());
            let lower = lower.as_str();
            same_text(lower, "png") || same_text(lower, "jpg") || same_text(lower, "jpeg")
                || same_text(lower, "gif") || same_text(lower, "webp") || same_text(lower, "bmp")
                || same_text(lower, "tif") || same_text(lower, "tiff") || same_text(lower, "heic")
                || same_text(lower, "heif") || same_text(lower, "svg") || same_text(lower, "avif")
                || same_text(lower, "ico")
        },
        None => false,
    }
}

/// Whether a path is that of a Markdown file.
pub fn is_markdown_path(path: &str) -> (markdown: bool)
    ensures
        markdown == names_markdown(extension_of(path@)),
{
    has_markdown_extension(&extension(path))
}

/// Whether a path is that of an image.
pub fn is_image_path(path: &str) -> (image: bool)
    ensures
        image == names_image(extension_of(path@)),
{
    has_image_extension(&extension(path))
}

} // verus!
