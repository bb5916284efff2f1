//! Ranges of a text with a style each, as they are handed to text layout.
use std::ops::Range;
use vstd::prelude::*;
use vstd::seq_lib::*;
use vstd::utf8::{
    encode_utf8, encode_utf8_valid_utf8, is_char_boundary, is_char_boundary_start_end_of_seq,
    valid_utf8,
};

verus! {

/// The last character boundary that is not behind the given byte.
pub open spec fn boundary_before(bytes: Seq<u8>, at: int) -> int
    decreases at,
{
    if at <= 0 || is_char_boundary(bytes, at) {
        at
    } else {
        boundary_before(bytes, at - 1)
    }
}

/// The first character boundary that is not before the given byte.
pub open spec fn boundary_behind(bytes: Seq<u8>, at: int) -> int
    decreases bytes.len() - at,
{
    if at >= bytes.len() || is_char_boundary(bytes, at) {
        at
    } else {
        boundary_behind(bytes, at + 1)
    }
}

/// The range, cut off at the end of the text and widened to whole characters. There is none
/// for a range that is empty or lies behind the text.
pub open spec fn whole_characters(bytes: Seq<u8>, range: Range<usize>) -> Option<Range<usize>> {
    if range.start >= range.end || range.start >= bytes.len() {
        None
    } else {
        Some(
            Range {
                start: boundary_before(bytes, range.start as int) as usize,
                end: boundary_behind(
                    bytes,
                    if range.end <= bytes.len() {
                        range.end as int
                    } else {
                        bytes.len() as int
                    },
                ) as usize,
            },
        )
    }
}

/// The highlights with their ranges widened to whole characters, without those that have none.
pub open spec fn repaired<S>(bytes: Seq<u8>, highlights: Seq<(Range<usize>, S)>) -> Seq<
    (Range<usize>, S),
>
    decreases highlights.len(),
{
    if highlights.len() == 0 {
        Seq::empty()
    } else {
        let rest = repaired(bytes, highlights.drop_last());
        match whole_characters(bytes, highlights.last().0) {
            Some(range) => rest.push((range, highlights.last().1)),
            None => rest,
        }
    }
}

/// The order of ranges: by their start, and by their end where they start together.
pub open spec fn range_before(first: Range<usize>, second: Range<usize>) -> bool {
    first.start < second.start || (first.start == second.start && first.end < second.end)
}

/// Where a range goes among others: behind all that do not come after it.
pub open spec fn place_of<S>(items: Seq<(Range<usize>, S)>, range: Range<usize>) -> int
    decreases items.len(),
{
    if items.len() == 0 || !range_before(range, items.last().0) {
        items.len() as int
    } else {
        place_of(items.drop_last(), range)
    }
}

/// The highlights in the order of their ranges; those with the same range stay as they were.
pub open spec fn ordered<S>(items: Seq<(Range<usize>, S)>) -> Seq<(Range<usize>, S)>
    decreases items.len(),
{
    if items.len() == 0 {
        Seq::empty()
    } else {
        let rest = ordered(items.drop_last());
        rest.insert(place_of(rest, items.last().0), items.last())
    }
}

/// No range comes after one that stands behind it.
pub open spec fn is_ordered<S>(items: Seq<(Range<usize>, S)>) -> bool {
    forall|i: int, j: int|
        0 <= i < j < items.len() ==> !range_before((#[trigger] items[j]).0, (#[trigger] items[i]).0)
}

/// The place of a range among ordered ones keeps them in order.
proof fn place_keeps_order<S>(items: Seq<(Range<usize>, S)>, range: Range<usize>)
    requires
        is_ordered(items),
    ensures
        0 <= place_of(items, range) <= items.len(),
        forall|i: int|
            0 <= i < place_of(items, range) ==> !range_before(range, (#[trigger] items[i]).0),
        forall|i: int|
            place_of(items, range) <= i < items.len() ==> range_before(
                range,
                (#[trigger] items[i]).0,
            ),
    decreases items.len(),
{
    if items.len() > 0 && range_before(range, items.last().0) {
        let rest = items.drop_last();
        place_keeps_order(rest, range);
        assert forall|i: int| 0 <= i < place_of(items, range) implies !range_before(
            range,
            (#[trigger] items[i]).0,
        ) by {
            assert(items[i] == rest[i]);
        }
        assert forall|i: int| place_of(items, range) <= i < items.len() implies range_before(
            range,
            (#[trigger] items[i]).0,
        ) by {
            if i < rest.len() {
                assert(items[i] == rest[i]);
            }
        }
    }
}

/// Ordering puts the highlights in order and keeps every one of them.
pub proof fn ordering_is_a_permutation<S>(items: Seq<(Range<usize>, S)>)
    ensures
        is_ordered(ordered(items)),
        ordered(items).len() == items.len(),
        ordered(items).to_multiset() == items.to_multiset(),
    decreases items.len(),
{
    if items.len() > 0 {
        let rest = ordered(items.drop_last());
        let last = items.last();
        let place = place_of(rest, last.0);
        ordering_is_a_permutation(items.drop_last());
        place_keeps_order(rest, last.0);
        let all = rest.insert(place, last);
        assert forall|i: int, j: int| 0 <= i < j < all.len() implies !range_before(
            (#[trigger] all[j]).0,
            (#[trigger] all[i]).0,
        ) by {
            let a = if i < place {
                i
            } else {
                i - 1
            };
            let b = if j < place {
                j
            } else {
                j - 1
            };
            if i != place && j != place {
                assert(all[i] == rest[a] && all[j] == rest[b]);
            } else if i == place {
                assert(all[j] == rest[b]);
            } else {
                assert(all[i] == rest[a]);
            }
        }
        broadcast use group_to_multiset_ensures;

        assert(items =~= items.drop_last().push(last));
        assert(all.remove(place) =~= rest);
        assert(all[place] == last);
        assert(all.contains(last));
        assert(all.to_multiset().count(last) > 0);
        assert(all.to_multiset() =~= rest.to_multiset().insert(last));
    } else {
        assert(ordered(items) =~= items);
    }
}

/// The boundaries that are found are boundaries, around the given byte.
proof fn boundaries_are_found(bytes: Seq<u8>, at: int)
    requires
        valid_utf8(bytes),
        0 <= at <= bytes.len(),
    ensures
        0 <= boundary_before(bytes, at) <= at <= boundary_behind(bytes, at) <= bytes.len(),
        is_char_boundary(bytes, boundary_before(bytes, at)),
        is_char_boundary(bytes, boundary_behind(bytes, at)),
{
    boundary_before_is_found(bytes, at);
    boundary_behind_is_found(bytes, at);
}

proof fn boundary_before_is_found(bytes: Seq<u8>, at: int)
    requires
        valid_utf8(bytes),
        0 <= at <= bytes.len(),
    ensures
        0 <= boundary_before(bytes, at) <= at,
        is_char_boundary(bytes, boundary_before(bytes, at)),
    decreases at,
{
    is_char_boundary_start_end_of_seq(bytes);
    if at > 0 && !is_char_boundary(bytes, at) {
        boundary_before_is_found(bytes, at - 1);
    }
}

proof fn boundary_behind_is_found(bytes: Seq<u8>, at: int)
    requires
        valid_utf8(bytes),
        0 <= at <= bytes.len(),
    ensures
        at <= boundary_behind(bytes, at) <= bytes.len(),
        is_char_boundary(bytes, boundary_behind(bytes, at)),
    decreases bytes.len() - at,
{
    is_char_boundary_start_end_of_seq(bytes);
    if at < bytes.len() && !is_char_boundary(bytes, at) {
        boundary_behind_is_found(bytes, at + 1);
    }
}

/// The highlights of a text that are left when they are put right: widened to whole characters
/// and put in order.
pub open spec fn sanitized<S>(text: Seq<char>, highlights: Seq<(Range<usize>, S)>) -> Seq<
    (Range<usize>, S),
> {
    ordered(repaired(encode_utf8(text), highlights))
}

/// A range that lies in the text, is not empty and holds whole characters.
pub open spec fn is_whole(bytes: Seq<u8>, range: Range<usize>) -> bool {
    &&& range.start < range.end <= bytes.len()
    &&& is_char_boundary(bytes, range.start as int)
    &&& is_char_boundary(bytes, range.end as int)
}

/// A widened range holds whole characters of the text.
proof fn widened_range_is_whole(bytes: Seq<u8>, range: Range<usize>)
    requires
        valid_utf8(bytes),
        bytes.len() <= usize::MAX,
    ensures
        whole_characters(bytes, range) matches Some(whole) ==> is_whole(bytes, whole),
{
    if range.start < range.end && range.start < bytes.len() {
        let end = if range.end <= bytes.len() {
            range.end as int
        } else {
            bytes.len() as int
        };
        boundaries_are_found(bytes, range.start as int);
        boundaries_are_found(bytes, end);
    }
}

/// Repaired ranges hold whole characters of the text.
proof fn repaired_ranges_are_whole<S>(bytes: Seq<u8>, highlights: Seq<(Range<usize>, S)>)
    requires
        valid_utf8(bytes),
        bytes.len() <= usize::MAX,
    ensures
        forall|i: int|
            0 <= i < repaired(bytes, highlights).len() ==> is_whole(
                bytes,
                (#[trigger] repaired(bytes, highlights)[i]).0,
            ),
    decreases highlights.len(),
{
    if highlights.len() > 0 {
        let rest = repaired(bytes, highlights.drop_last());
        let all = repaired(bytes, highlights);
        repaired_ranges_are_whole(bytes, highlights.drop_last());
        widened_range_is_whole(bytes, highlights.last().0);
        assert forall|i: int| 0 <= i < all.len() implies is_whole(
            bytes,
            (#[trigger] all[i]).0,
        ) by {
            if i < rest.len() {
                assert(all[i] == rest[i]);
            }
        }
    }
}

/// What is handed to text layout lies in the text, holds whole characters and is in order.
pub proof fn sanitized_highlights_are_whole_and_ordered<S>(
    text: Seq<char>,
    highlights: Seq<(Range<usize>, S)>,
)
    requires
        encode_utf8(text).len() <= usize::MAX,
    ensures
        is_ordered(sanitized(text, highlights)),
        forall|i: int|
            0 <= i < sanitized(text, highlights).len() ==> is_whole(
                encode_utf8(text),
                (#[trigger] sanitized(text, highlights)[i]).0,
            ),
{
    let bytes = encode_utf8(text);
    let items = repaired(bytes, highlights);
    encode_utf8_valid_utf8(text);
    repaired_ranges_are_whole(bytes, highlights);
    ordering_is_a_permutation(items);
    assert forall|i: int| 0 <= i < ordered(items).len() implies is_whole(
        bytes,
        (#[trigger] ordered(items)[i]).0,
    ) by {
        broadcast use group_to_multiset_ensures;

        let item = ordered(items)[i];
        assert(ordered(items).contains(item));
        assert(ordered(items).to_multiset().count(item) > 0);
        assert(items.contains(item));
        let k = choose|k: int| 0 <= k < items.len() && items[k] == item;
        assert(is_whole(bytes, items[k].0));
    }
}

/// Widens a range to the whole characters of the text, if it holds any.
fn to_whole_characters(text: &str, range: Range<usize>) -> (whole: Option<Range<usize>>)
    ensures
        whole == whole_characters(encode_utf8(text@), range),
{
    let len = text.as_bytes().len();
    if range.start >= range.end || range.start >= len {
        return None;
    }
    let ghost bytes = encode_utf8(text@);
    let limit = if range.end <= len {
        range.end
    } else {
        len
    };
    let mut start = range.start;
    let mut end = limit;
    while start > 0 && !text.is_char_boundary(start)
        invariant
            bytes == encode_utf8(text@),
            boundary_before(bytes, start as int) == boundary_before(bytes, range.start as int),
        decreases start,
    {
        start = start - 1;
    }
    while end < len && !text.is_char_boundary(end)
        invariant
            bytes == encode_utf8(text@),
            end <= len,
            len == bytes.len(),
            boundary_behind(bytes, end as int) == boundary_behind(bytes, limit as int),
        decreases len - end,
    {
        end = end + 1;
    }
    Some(start..end)
}

/// Where a range goes among ordered highlights.
fn find_place<S>(items: &Vec<(Range<usize>, S)>, range: &Range<usize>) -> (place: usize)
    ensures
        place == place_of(items@, *range),
        place <= items@.len(),
{
    let mut place: usize = items.len();
    proof {
        assert(items@.take(place as int) =~= items@);
    }
    while place > 0
        invariant
            place <= items@.len(),
            place_of(items@.take(place as int), *range) == place_of(items@, *range),
        decreases place,
    {
        proof {
            assert(items@.take(place as int).drop_last() =~= items@.take(place - 1));
        }
        let last = &items[place - 1].0;
        if !(range.start < last.start || (range.start == last.start && range.end < last.end)) {
            return place;
        }
        place = place - 1;
    }
    place
}

/// The highlights that a text can be laid out with: on whole characters of it, and in order.
pub fn sanitize_highlights<S>(text: &str, highlights: Vec<(Range<usize>, S)>) -> (sane: Vec<
    (Range<usize>, S),
>)
    ensures
        sane@ == sanitized(text@, highlights@),
{
    let mut sane: Vec<(Range<usize>, S)> = Vec::new();
    let ghost all = highlights@;
    let ghost bytes = encode_utf8(text@);
    for highlight in it: highlights
        invariant
            it.seq() == all,
            bytes == encode_utf8(text@),
            sane@ == ordered(repaired(bytes, all.take(it.index() as int))),
    {
        proof {
            let k = it.index() as int;
            assert(all.take(k + 1).drop_last() =~= all.take(k));
            assert(all.take(k + 1).last() == highlight);
        }
        let (range, style) = highlight;
        match to_whole_characters(text, range) {
            Some(whole) => {
                let place = find_place(&sane, &whole);
                proof {
                    let rest = repaired(bytes, all.take(it.index() as int));
                    assert(rest.push((whole, style)).drop_last() =~= rest);
                }
                sane.insert(place, (whole, style));
            },
            None => {},
        }
    }
    proof {
        assert(all.take(all.len() as int) =~= all);
    }
    sane
}

} // verus!
