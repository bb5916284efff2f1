//! Finding a query in a text, without regard to the case of ASCII letters.
use crate::text::{chars_of, string_of};
use std::ops::Range;
use vstd::prelude::*;
use vstd::utf8::{encode_utf8, is_char_boundary};

verus! {

/// A byte in lower case, if it is an ASCII letter.
pub open spec fn fold(byte: u8) -> u8 {
    if 65 <= byte <= 90 {
        (byte + 32) as u8
    } else {
        byte
    }
}

/// The needle lies at `start`, between two character boundaries.
pub open spec fn matches_at(hay: Seq<u8>, needle: Seq<u8>, start: int) -> bool {
    &&& 0 <= start <= hay.len() - needle.len()
    &&& is_char_boundary(hay, start)
    &&& is_char_boundary(hay, start + needle.len())
    &&& forall|i: int|
        0 <= i < needle.len() ==> fold(#[trigger] hay[start + i]) == fold(needle[i])
}

/// The matches from `start` on, each the first behind the one before it.
pub open spec fn matches_from(hay: Seq<u8>, needle: Seq<u8>, start: int) -> Seq<Range<usize>>
    decreases hay.len() - start,
{
    if needle.len() == 0 || start > hay.len() - needle.len() {
        Seq::empty()
    } else if matches_at(hay, needle, start) {
        seq![Range { start: start as usize, end: (start + needle.len()) as usize }]
            + matches_from(hay, needle, start + needle.len())
    } else {
        matches_from(hay, needle, start + 1)
    }
}

/// All matches of a needle in a text.
pub open spec fn all_matches(text: Seq<char>, needle: Seq<char>) -> Seq<Range<usize>> {
    matches_from(encode_utf8(text), encode_utf8(needle), 0)
}

/// One of the ranges holds the given offset.
pub open spec fn covers(ranges: Seq<Range<usize>>, at: int) -> bool {
    exists|k: int| 0 <= k < ranges.len() && (#[trigger] ranges[k]).start <= at < ranges[k].end
}

/// The ranges lie one behind the other.
pub open spec fn in_order(ranges: Seq<Range<usize>>) -> bool {
    forall|j: int, k: int|
        0 <= j < k < ranges.len() ==> (#[trigger] ranges[j]).end <= (#[trigger] ranges[k]).start
}

/// What is found from `start` on are matches, one behind the other, and every match overlaps
/// one that is found.
proof fn matches_from_start(hay: Seq<u8>, needle: Seq<u8>, start: int)
    requires
        0 <= start,
        0 < needle.len(),
        hay.len() <= usize::MAX,
    ensures
        forall|k: int|
            #![trigger matches_from(hay, needle, start)[k]]
            0 <= k < matches_from(hay, needle, start).len() ==> {
                let range = matches_from(hay, needle, start)[k];
                &&& start <= range.start
                &&& range.end == range.start + needle.len()
                &&& matches_at(hay, needle, range.start as int)
            },
        in_order(matches_from(hay, needle, start)),
        forall|at: int|
            start <= at && #[trigger] matches_at(hay, needle, at) ==> covers(
                matches_from(hay, needle, start),
                at,
            ),
    decreases hay.len() - start,
{
    let found = matches_from(hay, needle, start);
    if start > hay.len() - needle.len() {
    } else if matches_at(hay, needle, start) {
        let rest = matches_from(hay, needle, start + needle.len());
        matches_from_start(hay, needle, start + needle.len());
        assert(forall|k: int| 0 < k < found.len() ==> #[trigger] found[k] == rest[k - 1]);
        assert forall|at: int| start <= at && #[trigger] matches_at(hay, needle, at) implies covers(
            found,
            at,
        ) by {
            if at < start + needle.len() {
                assert(found[0].start <= at < found[0].end);
            } else {
                assert(covers(rest, at));
                let k = choose|k: int|
                    0 <= k < rest.len() && (#[trigger] rest[k]).start <= at < rest[k].end;
                assert(found[k + 1] == rest[k]);
            }
        }
    } else {
        matches_from_start(hay, needle, start + 1);
        assert forall|at: int| start <= at && #[trigger] matches_at(hay, needle, at) implies covers(
            found,
            at,
        ) by {
            assert(start + 1 <= at);
        }
    }
}

/// What is found are matches, in order and apart from each other, and every match overlaps one
/// that is found: from left to right, no match is missed.
pub proof fn no_match_is_missed(text: Seq<char>, needle: Seq<char>)
    requires
        encode_utf8(text).len() <= usize::MAX,
        0 < encode_utf8(needle).len(),
    ensures
        forall|k: int|
            #![trigger all_matches(text, needle)[k]]
            0 <= k < all_matches(text, needle).len() ==> {
                let range = all_matches(text, needle)[k];
                &&& range.end == range.start + encode_utf8(needle).len()
                &&& matches_at(encode_utf8(text), encode_utf8(needle), range.start as int)
            },
        in_order(all_matches(text, needle)),
        forall|at: int|
            #[trigger] matches_at(encode_utf8(text), encode_utf8(needle), at) ==> covers(
                all_matches(text, needle),
                at,
            ),
{
    matches_from_start(encode_utf8(text), encode_utf8(needle), 0);
}

/// Needles that differ only in the case of ASCII letters are found at the same places.
pub proof fn case_does_not_matter(hay: Seq<u8>, first: Seq<u8>, second: Seq<u8>, start: int)
    requires
        0 <= start,
        first.len() == second.len(),
        forall|i: int| 0 <= i < first.len() ==> fold(#[trigger] first[i]) == fold(second[i]),
    ensures
        matches_from(hay, first, start) == matches_from(hay, second, start),
    decreases hay.len() - start,
{
    if first.len() == 0 || start > hay.len() - first.len() {
    } else {
        assert(matches_at(hay, first, start) == matches_at(hay, second, start)) by {
            if matches_at(hay, first, start) {
                assert forall|i: int| 0 <= i < second.len() implies fold(
                    #[trigger] hay[start + i],
                ) == fold(second[i]) by {
                    assert(fold(first[i]) == fold(second[i]));
                }
            }
            if matches_at(hay, second, start) {
                assert forall|i: int| 0 <= i < first.len() implies fold(
                    #[trigger] hay[start + i],
                ) == fold(first[i]) by {
                    assert(fold(first[i]) == fold(second[i]));
                }
            }
        }
        if matches_at(hay, first, start) {
            case_does_not_matter(hay, first, second, start + first.len());
        } else {
            case_does_not_matter(hay, first, second, start + 1);
        }
    }
}

fn folded(byte: u8) -> (lower: u8)
    ensures
        lower == fold(byte),
{
    if 65 <= byte && byte <= 90 {
        byte + 32
    } else {
        byte
    }
}

/// Compares the bytes from `start` on with a needle in lower case.
fn same_bytes(hay: &[u8], needle_folded: &Vec<u8>, start: usize) -> (same: bool)
    requires
        start + needle_folded@.len() <= hay@.len() <= usize::MAX,
    ensures
        same == (forall|i: int|
            0 <= i < needle_folded@.len() ==> fold(#[trigger] hay@[start + i])
                == needle_folded@[i]),
{
    let mut idx: usize = 0;
    while idx < needle_folded.len()
        invariant
            idx <= needle_folded@.len(),
            start + needle_folded@.len() <= hay@.len() <= usize::MAX,
            forall|i: int|
                0 <= i < idx ==> fold(#[trigger] hay@[start + i]) == needle_folded@[i],
        decreases needle_folded@.len() - idx,
    {
        if folded(hay[start + idx]) != needle_folded[idx] {
            assert(fold(hay@[start + idx]) != needle_folded@[idx as int]);
            return false;
        }
        idx = idx + 1;
    }
    true
}

/// The byte ranges at which the needle occurs in the haystack, from left to right.
pub fn find_all_matches_case_insensitive(haystack: &str, needle: &str) -> (matches: Vec<
    Range<usize>,
>)
    ensures
        matches@ == all_matches(haystack@, needle@),
{
    let hay_bytes = haystack.as_bytes();
    let needle_bytes = needle.as_bytes();
    let ghost hay = hay_bytes@;
    let ghost bytes = needle_bytes@;
    let mut matches: Vec<Range<usize>> = Vec::new();
    if needle_bytes.len() == 0 || needle_bytes.len() > hay_bytes.len() {
        return matches;
    }
    let mut needle_folded: Vec<u8> = Vec::new();
    let mut i: usize = 0;
    while i < needle_bytes.len()
        invariant
            i <= needle_bytes@.len(),
            needle_folded@.len() == i,
            forall|k: int| 0 <= k < i ==> #[trigger] needle_folded@[k] == fold(needle_bytes@[k]),
        decreases needle_bytes@.len() - i,
    {
        needle_folded.push(folded(needle_bytes[i]));
        i = i + 1;
    }
    let mut start: usize = 0;
    while start <= hay_bytes.len() - needle_folded.len()
        invariant
            hay == hay_bytes@,
            hay == encode_utf8(haystack@),
            bytes == encode_utf8(needle@),
            0 < bytes.len() <= hay.len(),
            needle_folded@.len() == bytes.len(),
            forall|k: int| 0 <= k < bytes.len() ==> #[trigger] needle_folded@[k] == fold(bytes[k]),
            start <= hay.len(),
            matches@ + matches_from(hay, bytes, start as int) == all_matches(haystack@, needle@),
        decreases hay.len() - start,
    {
        let end = start + needle_folded.len();
        let ghost before = matches@;
        let found = haystack.is_char_boundary(start) && haystack.is_char_boundary(end)
            && same_bytes(hay_bytes, &needle_folded, start);
        assert(found == matches_at(hay, bytes, start as int)) by {
            if found {
                assert forall|k: int| 0 <= k < bytes.len() implies fold(#[trigger] hay[start + k])
                    == fold(bytes[k]) by {
                    assert(needle_folded@[k] == fold(bytes[k]));
                }
            }
            if matches_at(hay, bytes, start as int) {
                assert forall|k: int| 0 <= k < bytes.len() implies fold(#[trigger] hay[start + k])
                    == needle_folded@[k] by {}
            }
        }
        if found {
            matches.push(start..end);
            assert(matches@ + matches_from(hay, bytes, end as int) =~= before + matches_from(
                hay,
                bytes,
                start as int,
            ));
            start = end;
        } else {
            start = start + 1;
        }
    }
    matches
}

/// Takes the last character off a string.
pub fn pop_last_char(s: &mut String)
    ensures
        final(s)@ == (if old(s)@.len() == 0 {
            old(s)@
        } else {
            old(s)@.drop_last()
        }),
{
    let mut chars = chars_of(s.as_str());
    chars.pop();
    *s = string_of(chars.as_slice());
}

} // verus!
