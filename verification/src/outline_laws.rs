//! Which headings an outline holds, and which one is being read.
use crate::file_explorer::{is_active, level_number, outline, reading};
use crate::file_explorer::{EventView, HeadingLevel, ItemView};
use crate::text::{is_blank, trimmed};
use crate::text_laws::trimming_leaves_what_is_inside;
use vstd::prelude::*;

verus! {

/// An event that starts or ends a heading.
pub open spec fn bounds_a_heading(event: EventView) -> bool {
    event is HeadingStart || event is HeadingEnd
}

/// A heading starts with the first event and ends with the last one, with no other start or end
/// between them.
pub open spec fn is_heading(events: Seq<EventView>, first: int, last: int) -> bool {
    &&& 0 <= first < last < events.len()
    &&& events[first] is HeadingStart
    &&& events[last] is HeadingEnd
    &&& forall|i: int| first < i < last ==> !bounds_a_heading(#[trigger] events[i])
}

/// A heading has started and not ended yet.
pub open spec fn is_open(events: Seq<EventView>, first: int) -> bool {
    &&& 0 <= first < events.len()
    &&& events[first] is HeadingStart
    &&& forall|i: int| first < i < events.len() ==> !bounds_a_heading(#[trigger] events[i])
}

/// The text that events show: the texts and the code one behind the other, and a space for a line
/// break unless there is one.
pub open spec fn shown_text(events: Seq<EventView>) -> Seq<char>
    decreases events.len(),
{
    if events.len() == 0 {
        Seq::empty()
    } else {
        let before = shown_text(events.drop_last());
        match events.last() {
            EventView::Text(text) => before + text,
            EventView::Code(text) => before + text,
            EventView::SoftBreak | EventView::HardBreak => if before.len() > 0 && before[before.len()
                - 1] == ' ' {
                before
            } else {
                before + seq![' ']
            },
            _ => before,
        }
    }
}

/// What a heading shows.
pub open spec fn heading_text(events: Seq<EventView>, first: int, last: int) -> Seq<char> {
    shown_text(events.subrange(first + 1, last))
}

/// An item of an outline stands for a heading: it has the heading's level and its place, and
/// what it shows without the white space around it.
pub open spec fn stands_for(item: ItemView, events: Seq<EventView>, first: int, last: int) -> bool {
    &&& events[first] matches EventView::HeadingStart(level, start) && {
        &&& item.byte_start == start
        &&& item.level == (match level {
            HeadingLevel::H1 => 1u32,
            HeadingLevel::H2 => 2u32,
            HeadingLevel::H3 => 3u32,
            HeadingLevel::H4 => 4u32,
            HeadingLevel::H5 => 5u32,
            HeadingLevel::H6 => 6u32,
        })
    }
    &&& item.title == trimmed(heading_text(events, first, last))
}

/// The headings are those of the events that show anything, in order, one for each item.
pub open spec fn are_the_headings(
    events: Seq<EventView>,
    items: Seq<ItemView>,
    headings: Seq<(int, int)>,
) -> bool {
    &&& headings.len() == items.len()
    &&& forall|k: int|
        #![trigger headings[k]]
        0 <= k < headings.len() ==> {
            &&& is_heading(events, headings[k].0, headings[k].1)
            &&& !is_blank(heading_text(events, headings[k].0, headings[k].1))
            &&& stands_for(items[k], events, headings[k].0, headings[k].1)
        }
    &&& forall|j: int, k: int|
        #![trigger headings[j], headings[k]]
        0 <= j < k < headings.len() ==> headings[j].1 < headings[k].0
    &&& forall|first: int, last: int|
        #![trigger is_heading(events, first, last)]
        is_heading(events, first, last) && !is_blank(heading_text(events, first, last))
            ==> headings.contains((first, last))
}

/// What is being read of a heading is what the open heading shows.
proof fn the_open_heading_is_read(events: Seq<EventView>) -> (first: int)
    ensures
        reading(events).current matches Some((level, start, title)) ==> {
            &&& is_open(events, first)
            &&& events[first] == EventView::HeadingStart(level, start)
            &&& title == shown_text(events.subrange(first + 1, events.len() as int))
        },
        reading(events).current is None ==> forall|i: int| !#[trigger] is_open(events, i),
    decreases events.len(),
{
    if events.len() == 0 {
        0
    } else {
        let rest = events.drop_last();
        let event = events.last();
        let len = events.len() as int;
        let before = the_open_heading_is_read(rest);
        if event is HeadingStart {
            assert(events.subrange(len, len) =~= Seq::<EventView>::empty());
            len - 1
        } else if event is HeadingEnd {
            assert forall|i: int| !#[trigger] is_open(events, i) by {
                assert(bounds_a_heading(events[len - 1]));
            }
            before
        } else {
            if reading(rest).current is Some {
                assert forall|i: int| before < i < events.len() implies !bounds_a_heading(
                    #[trigger] events[i],
                ) by {
                    if i < rest.len() {
                        assert(rest[i] == events[i]);
                    }
                }
                let body = events.subrange(before + 1, len);
                assert(body.drop_last() =~= rest.subrange(before + 1, len - 1));
                assert(body.last() == event);
            } else {
                assert forall|i: int| !#[trigger] is_open(events, i) by {
                    if is_open(events, i) {
                        assert(events[i] is HeadingStart);
                        assert(i < len - 1);
                        assert forall|j: int| i < j < rest.len() implies !bounds_a_heading(
                            #[trigger] rest[j],
                        ) by {
                            assert(rest[j] == events[j]);
                        }
                        assert(is_open(rest, i));
                    }
                }
            }
            before
        }
    }
}

/// More events do not change a heading that is there.
proof fn headings_stay(events: Seq<EventView>, first: int, last: int)
    requires
        events.len() > 0,
    ensures
        last < events.len() - 1 ==> (is_heading(events, first, last) <==> is_heading(
            events.drop_last(),
            first,
            last,
        )),
        is_heading(events.drop_last(), first, last) ==> {
            &&& is_heading(events, first, last)
            &&& heading_text(events, first, last) == heading_text(events.drop_last(), first, last)
        },
{
    let rest = events.drop_last();
    if is_heading(rest, first, last) {
        assert forall|i: int| first < i < last implies !bounds_a_heading(#[trigger] events[i]) by {
            assert(rest[i] == events[i]);
        }
        assert(rest.subrange(first + 1, last) =~= events.subrange(first + 1, last));
    }
    if last < events.len() - 1 && is_heading(events, first, last) {
        assert forall|i: int| first < i < last implies !bounds_a_heading(#[trigger] rest[i]) by {
            assert(rest[i] == events[i]);
        }
    }
}

/// A heading that ends with the last event was open before it.
proof fn the_last_heading_was_open(events: Seq<EventView>, first: int)
    requires
        events.len() > 0,
    ensures
        is_heading(events, first, events.len() - 1) <==> events.last() is HeadingEnd && is_open(
            events.drop_last(),
            first,
        ),
{
    let rest = events.drop_last();
    if is_heading(events, first, events.len() - 1) {
        assert forall|i: int| first < i < rest.len() implies !bounds_a_heading(
            #[trigger] rest[i],
        ) by {
            assert(rest[i] == events[i]);
        }
    }
    if events.last() is HeadingEnd && is_open(rest, first) {
        assert forall|i: int| first < i < events.len() - 1 implies !bounds_a_heading(
            #[trigger] events[i],
        ) by {
            assert(rest[i] == events[i]);
        }
    }
}

/// Two headings are not open at once.
proof fn one_heading_is_open(events: Seq<EventView>, first: int, second: int)
    requires
        is_open(events, first),
        is_open(events, second),
    ensures
        first == second,
{
    if first < second {
        assert(bounds_a_heading(events[second]));
    }
    if second < first {
        assert(bounds_a_heading(events[first]));
    }
}

/// The headings of one event less are headings still, and stand for the same items.
proof fn items_stay(
    events: Seq<EventView>,
    items: Seq<ItemView>,
    headings: Seq<(int, int)>,
)
    requires
        events.len() > 0,
        are_the_headings(events.drop_last(), items, headings),
        forall|first: int| !(#[trigger] is_heading(events, first, events.len() - 1)) || is_blank(
            heading_text(events, first, events.len() - 1),
        ),
    ensures
        are_the_headings(events, items, headings),
{
    let rest = events.drop_last();
    assert forall|k: int| #![trigger headings[k]] 0 <= k < headings.len() implies {
        &&& is_heading(events, headings[k].0, headings[k].1)
        &&& !is_blank(heading_text(events, headings[k].0, headings[k].1))
        &&& stands_for(items[k], events, headings[k].0, headings[k].1)
    } by {
        headings_stay(events, headings[k].0, headings[k].1);
        assert(rest[headings[k].0] == events[headings[k].0]);
    }
    assert forall|first: int, last: int|
        #![trigger is_heading(events, first, last)]
        is_heading(events, first, last) && !is_blank(
            heading_text(events, first, last),
        ) implies headings.contains((first, last)) by {
        headings_stay(events, first, last);
        assert(last < events.len() - 1);
        assert(is_heading(rest, first, last));
    }
}

/// Every heading counts: the outline holds one item for each heading that shows anything but
/// white space, and no other, in the order of the headings. Each item has the level of its
/// heading, its place, and what it shows.
pub proof fn every_heading_is_in_the_outline(events: Seq<EventView>) -> (headings: Seq<(int, int)>)
    ensures
        are_the_headings(events, outline(events), headings),
    decreases events.len(),
{
    if events.len() == 0 {
        Seq::empty()
    } else {
        let rest = events.drop_last();
        let last = events.len() - 1;
        let before = every_heading_is_in_the_outline(rest);
        let open = the_open_heading_is_read(rest);
        if events.last() is HeadingEnd && reading(rest).current is Some {
            let (level, start, title) = reading(rest).current->0;
            the_last_heading_was_open(events, open);
            assert(rest.subrange(open + 1, rest.len() as int) =~= events.subrange(open + 1, last));
            assert(title == heading_text(events, open, last));
            let inside = trimming_leaves_what_is_inside(title);
            if is_blank(title) {
                assert forall|first: int|
                    !(#[trigger] is_heading(events, first, last)) || is_blank(
                        heading_text(events, first, last),
                    ) by {
                    the_last_heading_was_open(events, first);
                    if is_heading(events, first, last) {
                        one_heading_is_open(rest, first, open);
                    }
                }
                items_stay(events, outline(rest), before);
                before
            } else {
                assert(outline(events).drop_last() =~= outline(rest));
                one_more_heading(events, before, open);
                before.push((open, last))
            }
        } else {
            assert forall|first: int|
                !(#[trigger] is_heading(events, first, last)) || is_blank(
                    heading_text(events, first, last),
                ) by {
                the_last_heading_was_open(events, first);
            }
            items_stay(events, outline(rest), before);
            before
        }
    }
}

/// A heading that ends with the last event is the last one of the outline.
proof fn one_more_heading(events: Seq<EventView>, before: Seq<(int, int)>, open: int)
    requires
        events.len() > 0,
        are_the_headings(events.drop_last(), outline(events.drop_last()), before),
        is_open(events.drop_last(), open),
        is_heading(events, open, events.len() - 1),
        !is_blank(heading_text(events, open, events.len() - 1)),
        outline(events).len() == outline(events.drop_last()).len() + 1,
        outline(events).drop_last() == outline(events.drop_last()),
        stands_for(outline(events).last(), events, open, events.len() - 1),
    ensures
        are_the_headings(events, outline(events), before.push((open, events.len() - 1))),
{
    let rest = events.drop_last();
    let last = events.len() - 1;
    let headings = before.push((open, last));
    let items = outline(events);
    assert forall|k: int| #![trigger headings[k]] 0 <= k < headings.len() implies {
        &&& is_heading(events, headings[k].0, headings[k].1)
        &&& !is_blank(heading_text(events, headings[k].0, headings[k].1))
        &&& stands_for(items[k], events, headings[k].0, headings[k].1)
    } by {
        if k < before.len() {
            assert(headings[k] == before[k]);
            assert(items[k] == items.drop_last()[k]);
            headings_stay(events, before[k].0, before[k].1);
            assert(rest[before[k].0] == events[before[k].0]);
        }
    }
    assert forall|j: int, k: int|
        #![trigger headings[j], headings[k]]
        0 <= j < k < headings.len() implies headings[j].1 < headings[k].0 by {
        assert(headings[j] == before[j]);
        if k < before.len() {
            assert(headings[k] == before[k]);
        } else {
            assert(is_heading(rest, before[j].0, before[j].1));
            if open <= before[j].1 {
                if open < before[j].1 {
                    assert(bounds_a_heading(rest[before[j].1]));
                }
            }
        }
    }
    assert forall|first: int, end: int|
        #![trigger is_heading(events, first, end)]
        is_heading(events, first, end) && !is_blank(
            heading_text(events, first, end),
        ) implies headings.contains((first, end)) by {
        if end < last {
            headings_stay(events, first, end);
            assert(is_heading(rest, first, end));
            assert(before.contains((first, end)));
            let k = choose|k: int| 0 <= k < before.len() && before[k] == (first, end);
            assert(headings[k] == (first, end));
        } else {
            the_last_heading_was_open(events, first);
            one_heading_is_open(rest, first, open);
            assert(headings[before.len() as int] == (first, end));
        }
    }
}

/// Headings are numbered by their rank.
pub proof fn levels_are_numbered_by_rank()
    ensures
        level_number(HeadingLevel::H1) == 1,
        level_number(HeadingLevel::H2) == 2,
        level_number(HeadingLevel::H3) == 3,
        level_number(HeadingLevel::H4) == 4,
        level_number(HeadingLevel::H5) == 5,
        level_number(HeadingLevel::H6) == 6,
{
}

/// The active heading is the last one that starts at a byte or before it, and the first one if
/// all start behind it.
pub proof fn the_active_heading_is_the_last_that_has_begun(
    items: Seq<ItemView>,
    byte: int,
    active: usize,
)
    requires
        is_active(items, byte, Some(active)),
    ensures
        active < items.len(),
        forall|k: int|
            0 <= k < items.len() && (#[trigger] items[k]).byte_start <= byte ==> k <= active,
        (exists|k: int| 0 <= k < items.len() && (#[trigger] items[k]).byte_start <= byte)
            ==> items[active as int].byte_start <= byte,
        (forall|k: int| 0 <= k < items.len() ==> byte < (#[trigger] items[k]).byte_start)
            ==> active == 0,
        !is_active(items, byte, None),
{
    assert forall|k: int|
        0 <= k < items.len() && (#[trigger] items[k]).byte_start <= byte implies k <= active by {
        if active < k {
            assert(byte < items[k].byte_start);
        }
    }
    if exists|k: int| 0 <= k < items.len() && (#[trigger] items[k]).byte_start <= byte {
        let k = choose|k: int| 0 <= k < items.len() && (#[trigger] items[k]).byte_start <= byte;
        assert(k <= active);
    }
    if active > 0 {
        assert(items[active as int].byte_start <= byte);
    }
}

} // verus!
