//! How a document refers to files, and where dropped files are stored.
use crate::dropped_files::{
    asset_candidate, asset_step, directory_of, escaped_label, is_copied, link_target,
    numbered_name, path_in_document, path_of, reference, relative_path, shared_from, way,
};
use crate::dropped_files::AssetStep;
use crate::paths::{
    components_of, extension_of, file_name_of, is_absolute_path, is_same_path, joined_path,
    parent_of, stem_of,
};
use crate::quicklook::nul_free;
use crate::text::decimal;
use crate::text::replaced;
use crate::text_laws::{digits_stand_for_the_number, number_of, replacing_goes_character_by_character};
use vstd::prelude::*;

verus! {

/// A label that holds nothing to escape stays as it is.
pub proof fn plain_labels_stay_as_they_are(label: Seq<char>)
    requires
        !label.contains('\\'),
        !label.contains('['),
        !label.contains(']'),
    ensures
        escaped_label(label) == label,
{
    nothing_is_replaced(label, '\\', "\\\\"@);
    nothing_is_replaced(label, '[', "\\["@);
    nothing_is_replaced(label, ']', "\\]"@);
}

proof fn nothing_is_replaced(text: Seq<char>, from: char, to: Seq<char>)
    requires
        !text.contains(from),
    ensures
        replaced(text, from, to) == text,
    decreases text.len(),
{
    if text.len() > 0 {
        let rest = text.drop_last();
        assert(text[text.len() - 1] != from);
        assert(!rest.contains(from)) by {
            if rest.contains(from) {
                let i = choose|i: int| 0 <= i < rest.len() && rest[i] == from;
                assert(text[i] == from);
            }
        }
        nothing_is_replaced(rest, from, to);
        replacing_goes_character_by_character(rest, text.last(), from, to);
        assert(rest.push(text.last()) =~= text);
    } else {
        assert(replaced(text, from, to) =~= text);
    }
}

/// In the target of a link a slash stands for each backslash and `%3E` for each closing angle
/// bracket. Every other character stands for itself.
pub proof fn targets_are_escaped_by_character(path: Seq<char>, c: char)
    ensures
        link_target(Seq::empty()).len() == 0,
        link_target(path.push('\\')) == link_target(path) + seq!['/'],
        link_target(path.push('>')) == link_target(path) + seq!['%', '3', 'E'],
        c != '\\' && c != '>' ==> link_target(path.push(c)) == link_target(path) + seq![c],
{
    reveal_strlit("/");
    reveal_strlit("%3E");
    assert("/"@ =~= seq!['/']);
    assert("%3E"@ =~= seq!['%', '3', 'E']);
    let slashed = replaced(path, '\\', "/"@);
    replacing_goes_character_by_character(path, '>', '\\', "/"@);
    replacing_goes_character_by_character(path, c, '\\', "/"@);
    replacing_goes_character_by_character(slashed, '/', '>', "%3E"@);
    replacing_goes_character_by_character(slashed, c, '>', "%3E"@);
    assert(slashed + "/"@ =~= slashed.push('/'));
    assert(link_target(path).push('/') =~= link_target(path) + seq!['/']);
    assert(link_target(path).push(c) =~= link_target(path) + seq![c]);
    replacing_goes_character_by_character(Seq::empty(), c, '\\', "/"@);
    assert(replaced(Seq::<char>::empty(), '\\', "/"@) =~= Seq::<char>::empty());
    replacing_goes_character_by_character(Seq::empty(), c, '>', "%3E"@);
}

proof fn shared_components_are_all_found(
    base: Seq<Seq<char>>,
    target: Seq<Seq<char>>,
    index: int,
)
    requires
        0 <= index <= base.len(),
        index <= target.len(),
    ensures
        ({
            let shared = shared_from(base, target, index);
            &&& index <= shared <= base.len()
            &&& shared <= target.len()
            &&& forall|k: int| index <= k < shared ==> is_same_path(#[trigger] base[k], target[k])
            &&& shared < base.len() && shared < target.len() ==> !is_same_path(
                base[shared],
                target[shared],
            )
        }),
    decreases base.len() - index,
{
    if index < base.len() && index < target.len() && is_same_path(base[index], target[index]) {
        shared_components_are_all_found(base, target, index + 1);
    }
}

/// The way from a directory to a path goes up as often as the directory has components that the
/// path does not share, and down those of the path that the directory does not share. All that
/// they share at their start counts. Without anything shared there is no way.
pub proof fn the_way_is_the_shortest(base: Seq<Seq<char>>, target: Seq<Seq<char>>) -> (shared: int)
    ensures
        0 <= shared <= base.len(),
        shared <= target.len(),
        forall|k: int| 0 <= k < shared ==> is_same_path(#[trigger] base[k], target[k]),
        shared < base.len() && shared < target.len() ==> !is_same_path(
            base[shared],
            target[shared],
        ),
        way(base, target) is Some <==> shared > 0,
        way(base, target) matches Some(parts) ==> {
            &&& parts.len() == (base.len() - shared) + (target.len() - shared)
            &&& forall|k: int|
                0 <= k < base.len() - shared ==> #[trigger] parts[k] == seq!['.', '.']
            &&& forall|k: int|
                base.len() - shared <= k < parts.len() ==> #[trigger] parts[k] == target[shared + (k
                    - (base.len() - shared))]
        },
{
    reveal_strlit("..");
    assert(".."@ =~= seq!['.', '.']);
    shared_components_are_all_found(base, target, 0);
    shared_from(base, target, 0)
}

/// A path is put together from its components, the first one first.
pub proof fn components_are_joined_in_order(parts: Seq<Seq<char>>, part: Seq<char>)
    ensures
        path_of(Seq::empty()).len() == 0,
        path_of(parts.push(part)) == joined_path(path_of(parts), part),
{
    assert(parts.push(part).drop_last() =~= parts);
}

/// A path is relative to a directory if both are absolute or neither is, and there is a way from
/// one to the other.
pub proof fn relative_paths_follow_the_way(base: Seq<char>, target: Seq<char>)
    ensures
        relative_path(base, target) is Some <==> is_absolute_path(base) == is_absolute_path(target)
            && way(components_of(base), components_of(target)) is Some,
        relative_path(base, target) matches Some(relative) ==> relative == path_of(
            way(components_of(base), components_of(target))->0,
        ),
{
}

/// A document refers to a path from its own directory, where it has one and there is a way, and
/// to the path itself otherwise.
pub proof fn documents_refer_from_their_directory(path: Seq<char>, document: Seq<char>)
    ensures
        path_in_document(path, None) == path,
        parent_of(document) is None ==> path_in_document(path, Some(document)) == path,
        parent_of(document) matches Some(directory) ==> {
            &&& relative_path(directory, path) is None ==> path_in_document(path, Some(document))
                == path
            &&& relative_path(directory, path) matches Some(relative) ==> path_in_document(
                path,
                Some(document),
            ) == relative
        },
        directory_of(None) is None,
        directory_of(Some(document)) == parent_of(document),
{
}

/// A reference is the escaped name in brackets and the target in angle brackets, with an
/// exclamation mark before an image and none before a link.
pub proof fn references_name_the_file(name: Seq<char>, target: Seq<char>, image: bool)
    ensures
        reference(Some(name), target, false) == seq!['['] + escaped_label(name) + seq![
            ']',
            '(',
            '<',
        ] + target + seq!['>', ')'],
        reference(Some(name), target, true) == seq!['!'] + reference(Some(name), target, false),
        reference(None, target, image) == reference(Some(seq!['f', 'i', 'l', 'e']), target, image),
{
    reveal_strlit("![");
    reveal_strlit("[");
    reveal_strlit("](<");
    reveal_strlit(">)");
    reveal_strlit("file");
    assert("["@ =~= seq!['[']);
    assert("!["@ =~= seq!['!', '[']);
    assert("](<"@ =~= seq![']', '(', '<']);
    assert(">)"@ =~= seq!['>', ')']);
    assert("file"@ =~= seq!['f', 'i', 'l', 'e']);
    assert(reference(Some(name), target, true) =~= seq!['!'] + reference(
        Some(name),
        target,
        false,
    ));
}

/// A file is copied next to a document that has a directory, unless it has no name or is in the
/// assets already.
pub proof fn files_are_copied_unless_they_are_there(path: Seq<char>, document: Seq<char>)
    ensures
        !is_copied(path, None),
        parent_of(document) is None ==> !is_copied(path, Some(document)),
        file_name_of(path) is None ==> !is_copied(path, Some(document)),
        parent_of(document) is Some && file_name_of(path) is Some ==> ({
            let assets = joined_path(
                parent_of(document)->0,
                seq!['a', 's', 's', 'e', 't', 's'],
            );
            &&& parent_of(path) is None ==> is_copied(path, Some(document))
            &&& parent_of(path) matches Some(parent) ==> (is_copied(path, Some(document))
                <==> !is_same_path(parent, assets))
        }),
{
    reveal_strlit("assets");
    assert("assets"@ =~= seq!['a', 's', 's', 'e', 't', 's']);
}

/// A number comes behind the stem of a name and a hyphen, in decimal digits, and before the
/// extension, if there is one that is not empty. A name without a stem is that of a file.
pub proof fn numbers_come_behind_the_stem(
    stem: Seq<char>,
    extension: Seq<char>,
    number: nat,
) -> (digits: Seq<char>)
    ensures
        digits.len() > 0,
        number_of(digits) == number,
        forall|i: int| 0 <= i < digits.len() ==> '0' <= #[trigger] digits[i] <= '9',
        digits[0] == '0' ==> number == 0,
        numbered_name(Some(stem), None, number) == stem + seq!['-'] + digits,
        extension.len() > 0 ==> numbered_name(Some(stem), Some(extension), number) == stem + seq![
            '-',
        ] + digits + seq!['.'] + extension,
        extension.len() == 0 ==> numbered_name(Some(stem), Some(extension), number)
            == numbered_name(Some(stem), None, number),
        numbered_name(None, Some(extension), number) == numbered_name(
            Some(seq!['f', 'i', 'l', 'e']),
            Some(extension),
            number,
        ),
        numbered_name(None, None, number) == numbered_name(
            Some(seq!['f', 'i', 'l', 'e']),
            None,
            number,
        ),
{
    reveal_strlit("-");
    reveal_strlit(".");
    reveal_strlit("file");
    assert("-"@ =~= seq!['-']);
    assert("."@ =~= seq!['.']);
    assert("file"@ =~= seq!['f', 'i', 'l', 'e']);
    digits_stand_for_the_number(number);
    decimal(number)
}

/// A file is tried under its own name first, and then under its name with the number of the
/// attempt. After an attempt that found a file there comes the next one.
pub proof fn attempts_are_made_in_order(
    assets_dir: Seq<char>,
    file_name: Seq<char>,
    attempt: u32,
)
    ensures
        asset_candidate(assets_dir, file_name, 1) == joined_path(assets_dir, file_name),
        attempt > 1 ==> asset_candidate(assets_dir, file_name, attempt as int) == joined_path(
            assets_dir,
            numbered_name(stem_of(file_name), extension_of(file_name), attempt as nat),
        ),
        asset_step(attempt, false) == Some(AssetStep::Use(attempt)),
        asset_step(attempt, true) matches Some(step) ==> (step matches AssetStep::Try(next) && next
            == attempt + 1),
        asset_step(attempt, true) is None <==> attempt == u32::MAX,
{
}

/// The text that is handed on is as long as it was, has the replacement character where there was
/// a NUL, and is the same everywhere else.
pub proof fn only_nul_is_replaced(text: Seq<char>)
    ensures
        nul_free(text).len() == text.len(),
        forall|i: int|
            0 <= i < text.len() ==> #[trigger] nul_free(text)[i] == (if text[i] == '\0' {
                '\u{fffd}'
            } else {
                text[i]
            }),
    decreases text.len(),
{
    reveal_strlit("\u{fffd}");
    assert("\u{fffd}"@ =~= seq!['\u{fffd}']);
    if text.len() > 0 {
        let rest = text.drop_last();
        only_nul_is_replaced(rest);
        replacing_goes_character_by_character(rest, text.last(), '\0', "\u{fffd}"@);
        assert(rest.push(text.last()) =~= text);
        assert forall|i: int| 0 <= i < text.len() implies #[trigger] nul_free(text)[i] == (
        if text[i] == '\0' {
            '\u{fffd}'
        } else {
            text[i]
        }) by {
            if i < rest.len() {
                assert(nul_free(text)[i] == nul_free(rest)[i]);
            }
        }
    }
}

} // verus!
