//! Files that are dropped on a document: where they are stored and how the document refers to
//! them.
use crate::paths::{
    components, extension, file_name, file_stem, has_image_extension, is_absolute, join, parent,
    same_path,
};
use crate::paths::{
    components_of, extension_of, file_name_of, is_absolute_path, is_same_path, joined_path,
    names_image, parent_of, ref_text_of, stem_of, text_of, texts_of,
};
use crate::text::{replace_char, to_decimal};
use crate::text::{decimal, decimals_are_unique, replaced, replaced_contains, replaced_of_concat};
use vstd::prelude::*;
use vstd::string::*;

verus! {

/// The label of a link, with what would end it escaped.
pub open spec fn escaped_label(label: Seq<char>) -> Seq<char> {
    replaced(replaced(replaced(label, '\\', "\\\\"@), '[', "\\["@), ']', "\\]"@)
}

/// A text with its escapes taken back: of a backslash and the character behind it, only the
/// character is left.
pub open spec fn unescaped(text: Seq<char>) -> Seq<char>
    decreases text.len(),
{
    if text.len() == 0 {
        Seq::empty()
    } else if text[0] == '\\' && text.len() > 1 {
        seq![text[1]] + unescaped(text.skip(2))
    } else {
        seq![text[0]] + unescaped(text.skip(1))
    }
}

/// One character of a label, escaped.
pub open spec fn escaped_char(c: char) -> Seq<char> {
    if c == '\\' || c == '[' || c == ']' {
        seq!['\\', c]
    } else {
        seq![c]
    }
}

/// A label is escaped character by character.
pub proof fn label_is_escaped_by_character(first: char, rest: Seq<char>)
    ensures
        escaped_label(seq![first] + rest) == escaped_char(first) + escaped_label(rest),
{
    reveal_strlit("\\\\");
    reveal_strlit("\\[");
    reveal_strlit("\\]");
    let one = seq![first];
    let back = "\\\\"@;
    let open = "\\["@;
    let close = "\\]"@;
    assert(one.drop_last() =~= Seq::<char>::empty());
    let one1 = replaced(one, '\\', back);
    let one2 = replaced(one1, '[', open);
    let one3 = replaced(one2, ']', close);
    replaced_of_concat(one, rest, '\\', back);
    replaced_of_concat(one1, replaced(rest, '\\', back), '[', open);
    replaced_of_concat(one2, replaced(replaced(rest, '\\', back), '[', open), ']', close);
    assert(back =~= seq!['\\', '\\']);
    assert(open =~= seq!['\\', '[']);
    assert(close =~= seq!['\\', ']']);
    assert(one3 =~= escaped_char(first)) by {
        reveal_with_fuel(replaced, 3);
        if first == '\\' {
            assert(one1 =~= seq!['\\', '\\']);
            assert(one1.drop_last() =~= seq!['\\']);
            assert(one1.drop_last().drop_last() =~= Seq::<char>::empty());
            assert(one2 =~= seq!['\\', '\\']);
            assert(one2.drop_last() =~= seq!['\\']);
        } else if first == '[' {
            assert(one1 =~= seq!['[']);
            assert(one2 =~= seq!['\\', '[']);
            assert(one2.drop_last() =~= seq!['\\']);
            assert(one2.drop_last().drop_last() =~= Seq::<char>::empty());
        } else {
            assert(one1 =~= one);
            assert(one2 =~= one);
        }
    }
}

/// Taking the escapes back gives the label that was escaped.
pub proof fn escaping_can_be_taken_back(label: Seq<char>)
    ensures
        unescaped(escaped_label(label)) == label,
    decreases label.len(),
{
    if label.len() == 0 {
        assert(escaped_label(label) =~= Seq::<char>::empty());
        assert(label =~= Seq::<char>::empty());
    } else {
        let rest = label.drop_first();
        let tail = escaped_label(rest);
        let all = escaped_label(label);
        assert(seq![label[0]] + rest =~= label);
        label_is_escaped_by_character(label[0], rest);
        escaping_can_be_taken_back(rest);
        if label[0] == '\\' || label[0] == '[' || label[0] == ']' {
            assert(all.skip(2) =~= tail);
        } else {
            assert(all.skip(1) =~= tail);
        }
        assert(unescaped(all) =~= seq![label[0]] + rest);
    }
}

pub fn escape_markdown_label(label: &str) -> (escaped: String)
    ensures
        escaped@ == escaped_label(label@),
{
    let escaped = replace_char(label, '\\', "\\\\");
    let escaped = replace_char(escaped.as_str(), '[', "\\[");
    replace_char(escaped.as_str(), ']', "\\]")
}

/// A path as the target of a link in angle brackets.
pub open spec fn link_target(path: Seq<char>) -> Seq<char> {
    replaced(replaced(path, '\\', "/"@), '>', "%3E"@)
}

/// The target of a link holds nothing that would end its angle brackets, and no backslash.
pub proof fn link_target_stays_in_its_brackets(path: Seq<char>)
    ensures
        !link_target(path).contains('>'),
        !link_target(path).contains('\\'),
{
    reveal_strlit("/");
    reveal_strlit("%3E");
    let slashed = replaced(path, '\\', "/"@);
    if link_target(path).contains('>') {
        replaced_contains(slashed, '>', "%3E"@, '>');
        let k = choose|k: int| 0 <= k < "%3E"@.len() && "%3E"@[k] == '>';
        assert("%3E"@[k] == '>');
    }
    if link_target(path).contains('\\') {
        replaced_contains(slashed, '>', "%3E"@, '\\');
        if slashed.contains('\\') {
            replaced_contains(path, '\\', "/"@, '\\');
        }
        if "%3E"@.contains('\\') {
            let k = choose|k: int| 0 <= k < "%3E"@.len() && "%3E"@[k] == '\\';
            assert("%3E"@[k] == '\\');
        } else {
            let k = choose|k: int| 0 <= k < "/"@.len() && "/"@[k] == '\\';
            assert("/"@[k] == '\\');
        }
    }
}

/// The number of components at the start that two paths share, from the given one on.
pub open spec fn shared_from(base: Seq<Seq<char>>, target: Seq<Seq<char>>, index: int) -> int
    decreases base.len() - index,
{
    if 0 <= index < base.len() && index < target.len() && is_same_path(
        base[index],
        target[index],
    ) {
        shared_from(base, target, index + 1)
    } else {
        index
    }
}

/// The way from a path of the given number of components to another, with which it shares the
/// first ones: up to what they share, then down. There is none between paths that share
/// nothing.
pub open spec fn way_over(shared: int, base_len: int, target: Seq<Seq<char>>) -> Option<
    Seq<Seq<char>>,
> {
    if shared == 0 {
        None
    } else {
        Some(Seq::new((base_len - shared) as nat, |i: int| ".."@) + target.skip(shared))
    }
}

/// The way from one path to another.
pub open spec fn way(base: Seq<Seq<char>>, target: Seq<Seq<char>>) -> Option<Seq<Seq<char>>> {
    way_over(shared_from(base, target, 0), base.len() as int, target)
}

/// The path with the given components.
pub open spec fn path_of(parts: Seq<Seq<char>>) -> Seq<char>
    decreases parts.len(),
{
    if parts.len() == 0 {
        Seq::empty()
    } else {
        joined_path(path_of(parts.drop_last()), parts.last())
    }
}

/// A path as seen from a directory, if the two have a start in common.
pub open spec fn relative_path(base: Seq<char>, target: Seq<char>) -> Option<Seq<char>> {
    if is_absolute_path(base) != is_absolute_path(target) {
        None
    } else {
        match way(components_of(base), components_of(target)) {
            Some(parts) => Some(path_of(parts)),
            None => None,
        }
    }
}

/// What two paths share is a start of both.
proof fn shared_is_a_start(base: Seq<Seq<char>>, target: Seq<Seq<char>>, index: int)
    requires
        0 <= index <= base.len(),
        index <= target.len(),
    ensures
        index <= shared_from(base, target, index) <= base.len(),
        shared_from(base, target, index) <= target.len(),
        forall|k: int|
            index <= k < shared_from(base, target, index) ==> is_same_path(
                #[trigger] base[k],
                target[k],
            ),
    decreases base.len() - index,
{
    if index < base.len() && index < target.len() && is_same_path(base[index], target[index]) {
        shared_is_a_start(base, target, index + 1);
    }
}

/// The way up from the base ends at what it shares with the target, and the way down from
/// there is the rest of the target. There is a way unless the two differ from the start on.
pub proof fn the_way_leads_to_the_target(base: Seq<Seq<char>>, target: Seq<Seq<char>>)
    ensures
        way(base, target) matches Some(parts) ==> ({
            let shared = shared_from(base, target, 0);
            &&& 0 < shared <= base.len()
            &&& shared <= target.len()
            &&& forall|k: int| 0 <= k < shared ==> is_same_path(#[trigger] base[k], target[k])
            &&& forall|k: int| 0 <= k < base.len() - shared ==> #[trigger] parts[k] == ".."@
            &&& parts.skip(base.len() - shared) == target.skip(shared)
        }),
        way(base, target) is None ==> base.len() == 0 || target.len() == 0 || !is_same_path(
            base[0],
            target[0],
        ),
{
    shared_is_a_start(base, target, 0);
    if base.len() > 0 && target.len() > 0 && is_same_path(base[0], target[0]) {
        shared_is_a_start(base, target, 1);
    }
    if let Some(parts) = way(base, target) {
        let shared = shared_from(base, target, 0);
        assert(parts.skip(base.len() - shared) =~= target.skip(shared));
    }
}

/// Counts the components at the start that two paths share.
fn count_shared(base: &Vec<String>, target: &Vec<String>) -> (shared: usize)
    ensures
        shared == shared_from(texts_of(base@), texts_of(target@), 0),
        shared <= base@.len(),
        shared <= target@.len(),
        texts_of(base@) == texts_of(target@) ==> shared == base@.len(),
{
    let ghost a = texts_of(base@);
    let ghost b = texts_of(target@);
    let mut shared: usize = 0;
    while shared < base.len() && shared < target.len()
        invariant
            shared <= base@.len(),
            shared <= target@.len(),
            a == texts_of(base@),
            b == texts_of(target@),
            shared_from(a, b, shared as int) == shared_from(a, b, 0),
        decreases base@.len() - shared,
    {
        if !same_path(base[shared].as_str(), target[shared].as_str()) {
            return shared;
        }
        shared = shared + 1;
    }
    shared
}

/// The way from a path to another, from the number of components that they share.
pub fn components_over(shared: usize, base_len: usize, target: &Vec<String>) -> (parts: Option<
    Vec<String>,
>)
    requires
        shared <= base_len,
        shared <= target@.len(),
    ensures
        parts is Some == (shared > 0),
        parts matches Some(parts) ==> Some(texts_of(parts@)) == way_over(
            shared as int,
            base_len as int,
            texts_of(target@),
        ),
        parts matches Some(parts) ==> parts@.len() == base_len - shared + (target@.len() - shared),
{
    if shared == 0 {
        return None;
    }
    let ghost b = texts_of(target@);
    let ghost wanted = way_over(shared as int, base_len as int, b)->0;
    let mut parts: Vec<String> = Vec::new();
    let mut i: usize = shared;
    assert(texts_of(parts@) =~= wanted.take(0));
    while i < base_len
        invariant
            0 < shared <= i <= base_len,
            shared <= target@.len(),
            b == texts_of(target@),
            wanted == way_over(shared as int, base_len as int, b)->0,
            texts_of(parts@) == wanted.take(i - shared),
        decreases base_len - i,
    {
        let up = "..".to_owned();
        let ghost before = parts@;
        assert(texts_of(before.push(up)) =~= texts_of(before).push(up@));
        assert(wanted.take(i + 1 - shared) =~= wanted.take(i - shared).push(".."@));
        parts.push(up);
        i = i + 1;
    }
    let mut j: usize = shared;
    while j < target.len()
        invariant
            0 < shared <= j <= target@.len(),
            shared <= base_len,
            b == texts_of(target@),
            wanted == way_over(shared as int, base_len as int, b)->0,
            texts_of(parts@) == wanted.take(base_len - shared + (j - shared)),
        decreases target@.len() - j,
    {
        let part = target[j].clone();
        let ghost before = parts@;
        let ghost count = base_len - shared + (j - shared);
        assert(texts_of(before.push(part)) =~= texts_of(before).push(part@));
        assert(wanted[count] == b[j as int]);
        assert(wanted.take(count + 1) =~= wanted.take(count).push(part@));
        parts.push(part);
        j = j + 1;
    }
    assert(wanted.take(wanted.len() as int) =~= wanted);
    Some(parts)
}

/// The way from one path to another, by their components.
pub fn relative_components(base: &Vec<String>, target: &Vec<String>) -> (parts: Option<
    Vec<String>,
>)
    ensures
        parts is Some == way(texts_of(base@), texts_of(target@)) is Some,
        parts matches Some(parts) ==> Some(texts_of(parts@)) == way(
            texts_of(base@),
            texts_of(target@),
        ),
        texts_of(base@) == texts_of(target@) && base@.len() > 0 ==> (parts matches Some(parts)
            && parts@.len() == 0),
{
    components_over(count_shared(base, target), base.len(), target)
}

/// Puts components behind each other.
fn join_components(parts: &Vec<String>) -> (path: String)
    ensures
        path@ == path_of(texts_of(parts@)),
{
    let ghost all = texts_of(parts@);
    let mut path = String::new();
    let mut i: usize = 0;
    while i < parts.len()
        invariant
            i <= parts@.len(),
            all == texts_of(parts@),
            path@ == path_of(all.take(i as int)),
        decreases parts@.len() - i,
    {
        proof {
            assert(all.take(i + 1).drop_last() =~= all.take(i as int));
            assert(all.take(i + 1).last() == parts@[i as int]@);
        }
        path = join(path.as_str(), parts[i].as_str());
        i = i + 1;
    }
    assert(all.take(i as int) =~= all);
    path
}

/// A path as seen from a directory.
pub fn relative_path_from(base_dir: &str, target: &str) -> (relative: Option<String>)
    ensures
        text_of(relative) == relative_path(base_dir@, target@),
        base_dir@ == target@ && components_of(base_dir@).len() > 0 ==> (relative matches Some(path)
            && path@.len() == 0),
{
    if is_absolute(base_dir) != is_absolute(target) {
        return None;
    }
    let base_parts = components(base_dir);
    let target_parts = components(target);
    match relative_components(&base_parts, &target_parts) {
        Some(parts) => Some(join_components(&parts)),
        None => None,
    }
}

/// The directory of a document, if it has one.
pub open spec fn directory_of(document_path: Option<Seq<char>>) -> Option<Seq<char>> {
    match document_path {
        Some(path) => parent_of(path),
        None => None,
    }
}

/// A path as a document refers to it: seen from the directory of the document, or as it is.
pub open spec fn path_in_document(path: Seq<char>, document_path: Option<Seq<char>>) -> Seq<char> {
    match directory_of(document_path) {
        Some(directory) => match relative_path(directory, path) {
            Some(relative) => relative,
            None => path,
        },
        None => path,
    }
}

/// The directory of a document, if it has one.
pub fn document_dir(document_path: Option<&str>) -> (directory: Option<String>)
    ensures
        text_of(directory) == directory_of(ref_text_of(document_path)),
{
    match document_path {
        Some(path) => parent(path),
        None => None,
    }
}

/// The target of a link to a file.
pub fn markdown_drop_target(path: &str, document_path: Option<&str>) -> (target: String)
    ensures
        target@ == link_target(path_in_document(path@, ref_text_of(document_path))),
{
    let relative = match document_dir(document_path) {
        Some(directory) => relative_path_from(directory.as_str(), path),
        None => None,
    };
    match relative {
        Some(relative) => escape_link_target(relative.as_str()),
        None => escape_link_target(path),
    }
}

/// A path as the target of a link in angle brackets.
pub fn escape_link_target(path: &str) -> (target: String)
    ensures
        target@ == link_target(path@),
{
    let slashed = replace_char(path, '\\', "/");
    replace_char(slashed.as_str(), '>', "%3E")
}

/// The Markdown that refers to a file: an image, or a link.
pub open spec fn reference(name: Option<Seq<char>>, target: Seq<char>, image: bool) -> Seq<char> {
    let label = match name {
        Some(name) => name,
        None => "file"@,
    };
    (if image {
        "!["@
    } else {
        "["@
    }) + escaped_label(label) + "](<"@ + target + ">)"@
}

/// The Markdown that refers to a file with the given name.
pub fn markdown_reference(name: Option<&str>, target: &str, image: bool) -> (markdown: String)
    ensures
        markdown@ == reference(ref_text_of(name), target@, image),
{
    let label = match name {
        Some(name) => escape_markdown_label(name),
        None => escape_markdown_label("file"),
    };
    let mut markdown = if image {
        "![".to_owned()
    } else {
        "[".to_owned()
    };
    markdown.append(label.as_str());
    markdown.append("](<");
    markdown.append(target);
    markdown.append(">)");
    markdown
}

/// The Markdown that refers to a file from a document.
pub fn markdown_for_dropped_file(path: &str, document_path: Option<&str>) -> (markdown: String)
    ensures
        markdown@ == reference(
            file_name_of(path@),
            link_target(path_in_document(path@, ref_text_of(document_path))),
            names_image(extension_of(path@)),
        ),
{
    let name = file_name(path);
    let target = markdown_drop_target(path, document_path);
    let image = has_image_extension(&extension(path));
    match &name {
        Some(name) => markdown_reference(Some(name.as_str()), target.as_str(), image),
        None => markdown_reference(None, target.as_str(), image),
    }
}

/// What is to be done with a dropped file before a document refers to it.
#[derive(Debug)]
pub enum DropPlan {
    /// The document refers to the file where it is.
    Keep,
    /// The file is copied to the directory under the first free name.
    Copy { assets_dir: String, file_name: String },
}

/// A file is copied next to the document, unless the document has no directory, the path has
/// no file name, or the file is there already.
pub open spec fn is_copied(path: Seq<char>, document_path: Option<Seq<char>>) -> bool {
    &&& directory_of(document_path) is Some
    &&& file_name_of(path) is Some
    &&& !(parent_of(path) is Some && is_same_path(
        parent_of(path)->0,
        joined_path(directory_of(document_path)->0, "assets"@),
    ))
}

/// Decides what is to be done with a dropped file. A file already inside the document's assets
/// folder can be referred to directly.
pub fn store_dropped_file(path: &str, document_path: Option<&str>) -> (plan: DropPlan)
    ensures
        plan is Copy == is_copied(path@, ref_text_of(document_path)),
        plan matches DropPlan::Copy { assets_dir, file_name } ==> {
            &&& assets_dir@ == joined_path(
                directory_of(ref_text_of(document_path))->0,
                "assets"@,
            )
            &&& Some(file_name@) == file_name_of(path@)
        },
{
    let directory = match document_dir(document_path) {
        Some(directory) => directory,
        None => return DropPlan::Keep,
    };
    let name = match file_name(path) {
        Some(name) => name,
        None => return DropPlan::Keep,
    };
    let assets_dir = join(directory.as_str(), "assets");
    match parent(path) {
        Some(parent) => {
            if same_path(parent.as_str(), assets_dir.as_str()) {
                return DropPlan::Keep;
            }
        },
        None => {},
    }
    DropPlan::Copy { assets_dir, file_name: name }
}

/// The name of a file with a number in it, from the stem and the extension of its name.
pub open spec fn numbered_name(
    stem: Option<Seq<char>>,
    extension: Option<Seq<char>>,
    number: nat,
) -> Seq<char> {
    let start = match stem {
        Some(stem) => stem,
        None => "file"@,
    } + "-"@ + decimal(number);
    match extension {
        Some(extension) => if extension.len() > 0 {
            start + "."@ + extension
        } else {
            start
        },
        None => start,
    }
}

/// Names with different numbers are different, so that one of them is free.
pub proof fn numbered_names_differ(
    stem: Option<Seq<char>>,
    extension: Option<Seq<char>>,
    first: nat,
    second: nat,
)
    requires
        first != second,
    ensures
        numbered_name(stem, extension, first) != numbered_name(stem, extension, second),
{
    if numbered_name(stem, extension, first) == numbered_name(stem, extension, second) {
        let start = match stem {
            Some(stem) => stem,
            None => "file"@,
        } + "-"@;
        let end = match extension {
            Some(extension) => if extension.len() > 0 {
                "."@ + extension
            } else {
                Seq::empty()
            },
            None => Seq::empty(),
        };
        let a = decimal(first);
        let b = decimal(second);
        assert(numbered_name(stem, extension, first) =~= start + a + end);
        assert(numbered_name(stem, extension, second) =~= start + b + end);
        assert((start + a + end).len() == (start + b + end).len());
        assert(a.len() == b.len());
        assert forall|k: int| 0 <= k < a.len() implies a[k] == b[k] by {
            assert((start + a + end)[start.len() + k] == a[k]);
            assert((start + b + end)[start.len() + k] == b[k]);
        }
        assert(a =~= b);
        decimals_are_unique(first, second);
    }
}

/// The name of a file with a number in it.
pub fn numbered_file_name(stem: &Option<String>, extension: &Option<String>, number: u32) -> (name:
    String)
    ensures
        name@ == numbered_name(text_of(*stem), text_of(*extension), number as nat),
{
    let mut name = match stem {
        Some(stem) => stem.clone(),
        None => "file".to_owned(),
    };
    name.append("-");
    let digits = to_decimal(number);
    name.append(digits.as_str());
    match extension {
        Some(extension) => {
            if !extension.as_str().is_empty() {
                name.append(".");
                name.append(extension.as_str());
            }
        },
        None => {},
    }
    name
}

/// The path under which a file is tried to be stored: first under its own name, then under
/// names with the numbers from two on.
pub open spec fn asset_candidate(assets_dir: Seq<char>, file_name: Seq<char>, attempt: int) -> Seq<
    char,
> {
    joined_path(
        assets_dir,
        if attempt == 1 {
            file_name
        } else {
            numbered_name(stem_of(file_name), extension_of(file_name), attempt as nat)
        },
    )
}

/// The path under which a file is tried to be stored.
pub fn unique_asset_path(assets_dir: &str, file_name: &str, attempt: u32) -> (path: String)
    requires
        attempt >= 1,
    ensures
        path@ == asset_candidate(assets_dir@, file_name@, attempt as int),
{
    if attempt == 1 {
        return join(assets_dir, file_name);
    }
    let name = numbered_file_name(&file_stem(file_name), &extension(file_name), attempt);
    join(assets_dir, name.as_str())
}

/// What follows when a path has been tried.
#[derive(Debug, Clone, Copy, PartialEq, Eq, Structural)]
pub enum AssetStep {
    /// The path of the given attempt is to be tried.
    Try(u32),
    /// The path of the given attempt is free, and used.
    Use(u32),
}

/// What follows when the path of an attempt is there or not: it is used, or the next one is
/// tried, as long as there are numbers.
pub open spec fn asset_step(attempt: u32, exists: bool) -> Option<AssetStep> {
    if !exists {
        Some(AssetStep::Use(attempt))
    } else if attempt < u32::MAX {
        Some(AssetStep::Try((attempt + 1) as u32))
    } else {
        None
    }
}

/// Decides what follows when the path of an attempt has been looked for.
pub fn next_asset_attempt(attempt: u32, exists: bool) -> (step: Option<AssetStep>)
    ensures
        step == asset_step(attempt, exists),
        !exists ==> step == Some(AssetStep::Use(attempt)),
        exists && attempt < u32::MAX ==> step == Some(AssetStep::Try((attempt + 1) as u32)),
        exists && attempt == u32::MAX ==> step is None,
{
    if !exists {
        Some(AssetStep::Use(attempt))
    } else if attempt < u32::MAX {
        Some(AssetStep::Try(attempt + 1))
    } else {
        None
    }
}

/// The attempt whose path is used when the given paths are there and the steps are followed
/// from an attempt on.
pub open spec fn used_attempt(
    existing: Set<Seq<char>>,
    assets_dir: Seq<char>,
    file_name: Seq<char>,
    attempt: u32,
) -> Option<u32>
    decreases u32::MAX - attempt,
{
    match asset_step(
        attempt,
        existing.contains(asset_candidate(assets_dir, file_name, attempt as int)),
    ) {
        Some(AssetStep::Use(used)) => Some(used),
        Some(AssetStep::Try(next)) => if next > attempt {
            used_attempt(existing, assets_dir, file_name, next)
        } else {
            None
        },
        None => None,
    }
}

/// The path that is used is free, and that of the first attempt whose path is free. One is used
/// if any is free.
pub proof fn the_first_free_path_is_used(
    existing: Set<Seq<char>>,
    assets_dir: Seq<char>,
    file_name: Seq<char>,
    attempt: u32,
)
    ensures
        used_attempt(existing, assets_dir, file_name, attempt) matches Some(used) ==> {
            &&& attempt <= used
            &&& !existing.contains(asset_candidate(assets_dir, file_name, used as int))
            &&& forall|k: int|
                attempt <= k < used ==> existing.contains(
                    #[trigger] asset_candidate(assets_dir, file_name, k),
                )
        },
        used_attempt(existing, assets_dir, file_name, attempt) is None ==> forall|k: int|
            attempt <= k <= u32::MAX ==> existing.contains(
                #[trigger] asset_candidate(assets_dir, file_name, k),
            ),
    decreases u32::MAX - attempt,
{
    if existing.contains(asset_candidate(assets_dir, file_name, attempt as int)) && attempt
        < u32::MAX {
        the_first_free_path_is_used(existing, assets_dir, file_name, (attempt + 1) as u32);
    }
}

} // verus!
