//! What is shown of a document: its lines, its highlights and its colors.
use crate::document::DocumentView;
use crate::editor::{source_projection, EditorModel, HEAVY_DOCUMENT_BYTES};
use crate::editor_frame::{emphasized, match_display, selection_ranges, Emphasis, MenuCommand};
use crate::editor_text_layout::{
    clipped, clipped_highlights, has_no_newline, is_closest, level_of, line_from,
    line_ranges_are_lines,
};
use crate::editor_text_layout::{EditorLine, EditorTextLayout, EMPTY_LINE_PLACEHOLDER};
use crate::highlights::{
    boundary_before, boundary_behind, is_ordered, ordered, ordering_is_a_permutation, place_of,
    range_before, repaired, whole_characters,
};
use crate::inline_markdown::INLINE_SYNC_PARSE_MAX_BYTES;
use crate::projection::{segment_from, source_from};
use crate::projection::{DisplayProjection, ProjectionSegment};
use crate::search::all_matches;
use crate::syntax::{colored, syntax_color, SyntaxKind, SyntaxSpan};
use crate::system_colors::{preferred, Rgba, SystemColors, ThemeColor};
use crate::theme::{markdown_colors, opaque, MarkdownStyle, ThemeColors, ThemeName};
use std::ops::Range;
use vstd::prelude::*;
use vstd::utf8::{encode_utf8, is_char_boundary};

verus! {

/// A highlight is shown in a line exactly where both have bytes, counted from the start of the
/// line.
pub proof fn highlights_are_clipped_to_the_line(range: Range<usize>, line: Range<usize>, byte: int)
    requires
        line.start <= byte,
    ensures
        clipped(range, line) is Some <==> exists|b: int|
            #![trigger is_in(b, range)]
            is_in(b, range) && is_in(b, line),
        clipped(range, line) matches Some(part) ==> (is_in(byte - line.start, part) <==> is_in(
            byte,
            range,
        ) && is_in(byte, line)),
        clipped(range, line) matches Some(part) ==> part.start < part.end,
{
    if let Some(part) = clipped(range, line) {
        assert(is_in(part.start + line.start, range) && is_in(part.start + line.start, line));
    }
    if exists|b: int| #![trigger is_in(b, range)] is_in(b, range) && is_in(b, line) {
        let b = choose|b: int| #![trigger is_in(b, range)] is_in(b, range) && is_in(b, line);
        assert(range.start <= b < range.end && line.start <= b < line.end);
    }
}

/// A byte lies in a range.
pub open spec fn is_in(byte: int, range: Range<usize>) -> bool {
    range.start <= byte < range.end
}

/// Every highlight that has a part in the line is there with that part and its own style, in the
/// order in which they were, and no other.
pub proof fn no_highlight_of_a_line_is_left_out<S>(
    highlights: Seq<(Range<usize>, S)>,
    highlight: (Range<usize>, S),
    line: Range<usize>,
)
    ensures
        clipped_highlights(Seq::<(Range<usize>, S)>::empty(), line).len() == 0,
        clipped(highlight.0, line) is None ==> clipped_highlights(
            highlights.push(highlight),
            line,
        ) == clipped_highlights(highlights, line),
        clipped(highlight.0, line) matches Some(part) ==> clipped_highlights(
            highlights.push(highlight),
            line,
        ) == clipped_highlights(highlights, line).push((part, highlight.1)),
{
    assert(highlights.push(highlight).drop_last() =~= highlights);
}

/// The line of a byte holds it or ends at it, and lines before it end before the byte.
pub proof fn a_byte_is_in_its_line(layout: EditorTextLayout, text: Seq<char>, index: int)
    requires
        layout.lays_out(text),
        0 <= index <= encode_utf8(text).len(),
    ensures
        layout.line_of(index) matches Some(line) && {
            let range = layout.lines@[line as int];
            &&& line < layout.lines@.len()
            &&& range.start <= index <= range.end
            &&& layout.offset_in(line as int, index) == index - range.start
            &&& layout.byte_at(line as int, index - range.start) == index
        },
{
    line_ranges_are_lines(encode_utf8(text));
    let lines = layout.lines@;
    the_first_line_is_found(lines, index, 0);
    let line = line_from(lines, index, 0);
    assert(lines.last().end >= index);
    assert(lines.len() == layout.lines.len());
    assert(line < lines.len());
    if line > 0 {
        assert(lines[line - 1].end < index);
        assert(lines[line - 1].end + 1 == lines[line].start);
    }
    let range = lines[line];
    assert(range.end <= encode_utf8(text).len());
}

proof fn the_first_line_is_found(lines: Seq<Range<usize>>, byte: int, index: int)
    requires
        0 <= index <= lines.len(),
    ensures
        index <= line_from(lines, byte, index) <= lines.len(),
        line_from(lines, byte, index) < lines.len() ==> byte <= lines[line_from(
            lines,
            byte,
            index,
        )].end,
        forall|k: int|
            index <= k < line_from(lines, byte, index) ==> (#[trigger] lines[k]).end < byte,
    decreases lines.len() - index,
{
    if index < lines.len() && byte > lines[index].end {
        the_first_line_is_found(lines, byte, index + 1);
    }
}

/// Behind the end of the text a byte is in the last line, and offsets stay in their line.
pub proof fn positions_stay_in_the_text(
    layout: EditorTextLayout,
    text: Seq<char>,
    index: int,
    line: int,
    offset: int,
)
    requires
        layout.lays_out(text),
        index >= encode_utf8(text).len(),
        0 <= line < layout.lines@.len(),
        0 <= offset,
    ensures
        layout.line_of(index) == layout.line_of(encode_utf8(text).len() as int),
        layout.lines@[line].start <= layout.byte_at(line, offset) <= layout.lines@[line].end,
        offset >= layout.lines@[line].end - layout.lines@[line].start ==> layout.byte_at(
            line,
            offset,
        ) == layout.lines@[line].end,
        index >= layout.lines@[line].end ==> layout.offset_in(line, index)
            == layout.lines@[line].end - layout.lines@[line].start,
        layout.offset_in(line, layout.lines@[line].start - 1) == 0,
{
    line_ranges_are_lines(encode_utf8(text));
    assert(layout.lines@[line].start <= layout.lines@[line].end <= encode_utf8(text).len());
}

/// A line has the level that is given for it, and lines for which none is given have none.
pub proof fn lines_have_their_own_level(levels: Seq<Option<u8>>, line: int)
    requires
        0 <= line,
    ensures
        line < levels.len() ==> level_of(levels, line) == levels[line],
        line >= levels.len() ==> level_of(levels, line) is None,
{
}

/// The closest line is no further away than any other, and the first one of those.
pub proof fn the_first_of_the_closest_lines_is_taken(distances: Seq<u32>, line: usize, other: int)
    requires
        is_closest(distances, Some(line)),
        0 <= other < distances.len(),
    ensures
        line < distances.len(),
        distances[line as int] <= distances[other],
        distances[other] == distances[line as int] ==> line <= other,
        !is_closest(distances, None),
{
    if other < line {
        assert(distances[line as int] < distances[other]);
    }
}

/// A layout has the lines of its text and its length in bytes.
pub proof fn layouts_have_the_lines_of_their_text(layout: EditorTextLayout, text: Seq<char>)
    requires
        layout.lays_out(text),
    ensures
        layout.display_len == encode_utf8(text).len(),
        layout.lines@.len() > 0,
        layout.lines@[0].start == 0,
        layout.lines@.last().end == encode_utf8(text).len(),
        forall|k: int, i: int|
            #![trigger layout.lines@[k], encode_utf8(text)[i]]
            0 <= k < layout.lines@.len() && layout.lines@[k].start <= i < layout.lines@[k].end
                ==> encode_utf8(text)[i] != 0xa,
        forall|j: int, k: int|
            #![trigger layout.lines@[j], layout.lines@[k]]
            0 <= j && k == j + 1 && k < layout.lines@.len() ==> {
                &&& layout.lines@[k].start == layout.lines@[j].end + 1
                &&& encode_utf8(text)[layout.lines@[j].end as int] == 0xa
            },
{
    line_ranges_are_lines(encode_utf8(text));
    assert forall|k: int, i: int|
        #![trigger layout.lines@[k], encode_utf8(text)[i]]
        0 <= k < layout.lines@.len() && layout.lines@[k].start <= i
            < layout.lines@[k].end implies encode_utf8(text)[i] != 0xa by {
        assert(has_no_newline(encode_utf8(text), layout.lines@[k]));
    }
}

/// A line is laid out with its own bytes, its own level and the highlights that reach into it. An
/// empty one has a character without width in it, and no highlights.
pub proof fn lines_are_laid_out_with_their_text<S>(
    line: EditorLine<S>,
    bytes: Seq<u8>,
    range: Range<usize>,
    highlights: Seq<(Range<usize>, S)>,
    heading_level: Option<u8>,
)
    requires
        line.lays_out(bytes, range, highlights, heading_level),
    ensures
        line.display_range == range,
        line.heading_level == heading_level,
        range.start != range.end ==> encode_utf8(line.text@) == bytes.subrange(
            range.start as int,
            range.end as int,
        ),
        range.start != range.end ==> line.highlights@ == clipped_highlights(highlights, range),
        range.start == range.end ==> line.text@ == seq!['\u{200b}'],
        range.start == range.end ==> line.highlights@.len() == 0,
{
    reveal_strlit("\u{200B}");
    assert(EMPTY_LINE_PLACEHOLDER@ =~= seq!['\u{200b}']);
}

/// A projection that shows a source as it is has the source for its text and hides none of it.
pub proof fn a_shown_source_is_not_hidden(projection: DisplayProjection, source: Seq<char>)
    requires
        projection.shows(source),
    ensures
        projection.display_text@ == source,
        projection.source_len == encode_utf8(source).len(),
        projection.segments@.len() == 1,
        projection.segments@[0].source.start == 0,
        projection.segments@[0].source.end == encode_utf8(source).len(),
        projection.segments@[0].display_start == 0,
        !projection.segments@[0].hidden,
{
}

/// The caret blinks and the source is parsed at once in documents of up to 64 KiB.
pub proof fn large_documents_are_those_above_64_kib()
    ensures
        HEAVY_DOCUMENT_BYTES == 64 * 1024,
        INLINE_SYNC_PARSE_MAX_BYTES == 64 * 1024,
{
}

proof fn segments_are_passed(segments: Seq<ProjectionSegment>, byte: int, from: int, index: int)
    requires
        0 <= from <= index < segments.len(),
        forall|i: int| from <= i < index ==> (#[trigger] segments[i]).source.end < byte,
        segments[index].source.end >= byte,
    ensures
        segment_from(segments, byte, from) == index,
    decreases index - from,
{
    if from < index {
        segments_are_passed(segments, byte, from + 1, index);
    }
}

/// A byte inside of a visible segment is displayed as far behind the start of the segment as it
/// is in the source, and one inside of a hidden segment where that stands.
pub proof fn source_bytes_are_displayed_in_their_segment(
    projection: DisplayProjection,
    index: int,
    byte: int,
)
    requires
        projection.wf(),
        0 <= index < projection.segments@.len(),
        projection.segments@[index].source.start < byte <= projection.segments@[index].source.end,
    ensures
        ({
            let segment = projection.segments@[index];
            &&& !segment.hidden ==> projection.display_byte(byte) == segment.display_start + (byte
                - segment.source.start)
            &&& segment.hidden ==> projection.display_byte(byte) == segment.display_start
        }),
{
    let segments = projection.segments@;
    assert forall|i: int| 0 <= i < index implies (#[trigger] segments[i]).source.end < byte by {
        assert(segments[i].source.end <= segments[index].source.start);
    }
    segments_are_passed(segments, byte, 0, index);
}

proof fn earlier_segments_are_passed(
    projection: DisplayProjection,
    byte: int,
    mapped: int,
    from: int,
    index: int,
) -> (later: int)
    requires
        projection.wf(),
        0 <= from <= index < projection.segments@.len(),
        projection.segments@[index].display_start <= byte,
    ensures
        source_from(projection.segments@, byte, mapped, from) == source_from(
            projection.segments@,
            byte,
            later,
            index,
        ),
    decreases index - from,
{
    if from < index {
        let segment = projection.segments@[from];
        assert(segment.display_end() <= projection.segments@[index].display_start);
        let next = if segment.hidden && byte == segment.display_start || !segment.hidden && byte
            == segment.display_end() {
            segment.source.end as int
        } else {
            mapped
        };
        earlier_segments_are_passed(projection, byte, next, from + 1, index)
    } else {
        mapped
    }
}

/// A displayed byte of a visible segment comes from as far behind the start of the segment in the
/// source.
pub proof fn displayed_bytes_come_from_their_segment(
    projection: DisplayProjection,
    index: int,
    byte: int,
)
    requires
        projection.wf(),
        0 <= index < projection.segments@.len(),
        !projection.segments@[index].hidden,
        projection.segments@[index].display_start <= byte < projection.segments@[index].display_end(),
    ensures
        ({
            let segment = projection.segments@[index];
            projection.source_byte(byte) == segment.source.start + (byte - segment.display_start)
        }),
{
    let later = earlier_segments_are_passed(
        projection,
        byte,
        projection.source_len as int,
        0,
        index,
    );
}

/// What is typed where a hidden segment stands at the end goes behind the hidden source.
pub proof fn hidden_source_is_left_to_the_left(projection: DisplayProjection, index: int)
    requires
        projection.wf(),
        index == projection.segments@.len() - 1,
        0 <= index,
        projection.segments@[index].hidden,
    ensures
        projection.source_byte(projection.segments@[index].display_start as int)
            == projection.segments@[index].source.end,
{
    let segment = projection.segments@[index];
    let later = earlier_segments_are_passed(
        projection,
        segment.display_start as int,
        projection.source_len as int,
        0,
        index,
    );
    reveal_with_fuel(source_from, 2);
}

/// A highlight is displayed from where its start is displayed to where its end is, with its
/// style, unless it takes no room there. The others stay as they are.
pub proof fn highlights_are_displayed_where_their_source_is<S>(
    projection: DisplayProjection,
    highlights: Seq<(Range<usize>, S)>,
    highlight: (Range<usize>, S),
)
    ensures
        ({
            let range = Range {
                start: projection.display_byte(highlight.0.start as int) as usize,
                end: projection.display_byte(highlight.0.end as int) as usize,
            };
            let before = projection.projected(highlights);
            let after = projection.projected(highlights.push(highlight));
            &&& projection.projected(Seq::<(Range<usize>, S)>::empty()).len() == 0
            &&& range.start < range.end ==> after == before.push((range, highlight.1))
            &&& range.start >= range.end ==> after == before
        }),
{
    let project = |highlight: (Range<usize>, S)|
        (
            Range {
                start: projection.display_byte(highlight.0.start as int) as usize,
                end: projection.display_byte(highlight.0.end as int) as usize,
            },
            highlight.1,
        );
    let all = highlights.push(highlight);
    reveal(Seq::filter);
    assert(all.map_values(project).drop_last() =~= highlights.map_values(project));
    assert(all.map_values(project).last() == project(highlight));
}

/// The source that is edited is displayed as it is: the text, all of it, from its first byte on.
pub proof fn the_source_is_displayed_as_it_is(source: Seq<char>)
    requires
        encode_utf8(source).len() <= usize::MAX,
    ensures
        ({
            let projection = source_projection(source);
            &&& projection.text == source
            &&& projection.source_len == encode_utf8(source).len()
            &&& projection.segments.len() == 1
            &&& projection.segments[0].source.start == 0
            &&& projection.segments[0].source.end == encode_utf8(source).len()
            &&& projection.segments[0].display_start == 0
            &&& !projection.segments[0].hidden
        }),
{
}

proof fn the_boundary_before_is_the_last(bytes: Seq<u8>, at: int)
    requires
        0 <= at,
    ensures
        0 <= boundary_before(bytes, at) <= at,
        boundary_before(bytes, at) > 0 ==> is_char_boundary(bytes, boundary_before(bytes, at)),
        forall|i: int|
            boundary_before(bytes, at) < i <= at ==> !#[trigger] is_char_boundary(bytes, i),
    decreases at,
{
    if at > 0 && !is_char_boundary(bytes, at) {
        the_boundary_before_is_the_last(bytes, at - 1);
    }
}

proof fn the_boundary_behind_is_the_first(bytes: Seq<u8>, at: int)
    requires
        at <= bytes.len(),
    ensures
        at <= boundary_behind(bytes, at) <= bytes.len(),
        boundary_behind(bytes, at) < bytes.len() ==> is_char_boundary(
            bytes,
            boundary_behind(bytes, at),
        ),
        forall|i: int|
            at <= i < boundary_behind(bytes, at) ==> !#[trigger] is_char_boundary(bytes, i),
    decreases bytes.len() - at,
{
    if at < bytes.len() && !is_char_boundary(bytes, at) {
        the_boundary_behind_is_the_first(bytes, at + 1);
    }
}

/// A range is widened to whole characters and no further, and cut off at the end of the text. It
/// is dropped exactly if it is empty or lies behind the text.
pub proof fn ranges_are_widened_no_further_than_needed(bytes: Seq<u8>, range: Range<usize>)
    requires
        bytes.len() <= usize::MAX,
    ensures
        whole_characters(bytes, range) is None <==> range.start >= range.end || range.start
            >= bytes.len(),
        whole_characters(bytes, range) matches Some(whole) ==> {
            let end = if range.end < bytes.len() {
                range.end as int
            } else {
                bytes.len() as int
            };
            &&& whole.start <= range.start
            &&& end <= whole.end <= bytes.len()
            &&& forall|i: int|
                whole.start < i <= range.start ==> !#[trigger] is_char_boundary(bytes, i)
            &&& forall|i: int| end <= i < whole.end ==> !#[trigger] is_char_boundary(bytes, i)
        },
{
    if range.start < range.end && range.start < bytes.len() {
        let end = if range.end < bytes.len() {
            range.end as int
        } else {
            bytes.len() as int
        };
        the_boundary_before_is_the_last(bytes, range.start as int);
        the_boundary_behind_is_the_first(bytes, end);
    }
}

/// Every highlight whose range is not dropped is there, widened and with its own style, and no
/// other.
pub proof fn no_highlight_is_left_out<S>(
    bytes: Seq<u8>,
    highlights: Seq<(Range<usize>, S)>,
    highlight: (Range<usize>, S),
)
    ensures
        repaired(bytes, Seq::<(Range<usize>, S)>::empty()).len() == 0,
        whole_characters(bytes, highlight.0) is None ==> repaired(
            bytes,
            highlights.push(highlight),
        ) == repaired(bytes, highlights),
        whole_characters(bytes, highlight.0) matches Some(whole) ==> repaired(
            bytes,
            highlights.push(highlight),
        ) == repaired(bytes, highlights).push((whole, highlight.1)),
{
    assert(highlights.push(highlight).drop_last() =~= highlights);
}

/// Ranges are ordered by where they start, and by where they end where they start together.
pub proof fn ranges_are_ordered_by_start_and_end(first: Range<usize>, second: Range<usize>)
    ensures
        first.start < second.start ==> range_before(first, second),
        first.start > second.start ==> !range_before(first, second),
        first.start == second.start ==> (range_before(first, second) <==> first.end < second.end),
{
}

/// A highlight goes behind those of the same range that were there before it.
pub proof fn later_highlights_of_a_range_come_later<S>(
    highlights: Seq<(Range<usize>, S)>,
    highlight: (Range<usize>, S),
) -> (place: int)
    ensures
        0 <= place <= highlights.len(),
        ordered(highlights.push(highlight)) == ordered(highlights).insert(place, highlight),
        forall|i: int|
            0 <= i < place ==> !range_before(highlight.0, (#[trigger] ordered(highlights)[i]).0),
        forall|i: int|
            place <= i < highlights.len() ==> range_before(
                highlight.0,
                (#[trigger] ordered(highlights)[i]).0,
            ),
{
    let before = ordered(highlights);
    assert(highlights.push(highlight).drop_last() =~= highlights);
    ordering_is_a_permutation(highlights);
    the_place_is_found(before, highlight.0);
    place_of(before, highlight.0)
}

proof fn the_place_is_found<S>(items: Seq<(Range<usize>, S)>, range: Range<usize>)
    requires
        is_ordered(items),
    ensures
        0 <= place_of(items, range) <= items.len(),
        forall|i: int|
            0 <= i < place_of(items, range) ==> !range_before(range, (#[trigger] items[i]).0),
        forall|i: int|
            place_of(items, range) <= i < items.len() ==> range_before(
                range,
                (#[trigger] items[i]).0,
            ),
    decreases items.len(),
{
    if items.len() > 0 && range_before(range, items.last().0) {
        let rest = items.drop_last();
        the_place_is_found(rest, range);
        assert forall|i: int| 0 <= i < place_of(items, range) implies !range_before(
            range,
            (#[trigger] items[i]).0,
        ) by {
            assert(items[i] == rest[i]);
        }
        assert forall|i: int| place_of(items, range) <= i < items.len() implies range_before(
            range,
            (#[trigger] items[i]).0,
        ) by {
            if i < rest.len() {
                assert(items[i] == rest[i]);
            }
        }
    }
}

/// The find panel counts the current match from one on, and shows zero without matches.
pub proof fn matches_are_counted_from_one(current: int, count: int)
    requires
        0 <= current,
        0 <= count,
    ensures
        count == 0 ==> match_display(current, count) == 0,
        current < count ==> match_display(current, count) == current + 1,
        0 < count <= current ==> match_display(current, count) == count,
{
}

/// All matches are highlighted while the find panel is open, and none while it is closed.
pub proof fn matches_are_highlighted_in_the_open_panel(editor: EditorModel, doc: DocumentView)
    requires
        editor.coherent(doc),
    ensures
        !editor.search_active ==> editor.highlighted_matches(doc).len() == 0,
        editor.search_query.len() == 0 ==> editor.highlighted_matches(doc).len() == 0,
        editor.search_active && editor.search_query.len() > 0 ==> editor.highlighted_matches(doc)
            == all_matches(doc.text, editor.search_query),
{
}

/// The selection is highlighted from its first byte to its end, and nothing without one.
pub proof fn the_selection_is_highlighted(doc: DocumentView)
    requires
        encode_utf8(doc.text).len() <= usize::MAX,
        doc.text.len() <= usize::MAX,
        doc.selection matches Some(range) ==> range.start <= range.end <= doc.text.len(),
    ensures
        doc.selection is None ==> selection_ranges(doc).len() == 0,
        doc.selection matches Some(range) ==> {
            let shown = selection_ranges(doc);
            &&& shown.len() == 1
            &&& shown[0].start == encode_utf8(doc.text.take(range.start as int)).len() as usize
            &&& shown[0].end == encode_utf8(doc.text.take(range.end as int)).len() as usize
        },
{
}

/// Every range is emphasized, for the same reason and in the same order.
pub proof fn every_range_is_emphasized(ranges: Seq<Range<usize>>, emphasis: Emphasis)
    ensures
        emphasized(ranges, emphasis).len() == ranges.len(),
        forall|k: int|
            0 <= k < ranges.len() ==> #[trigger] emphasized(ranges, emphasis)[k] == (
                ranges[k],
                emphasis,
            ),
{
}

/// A target of the outline is revealed first and at the top, and any other one after that.
pub proof fn targets_are_revealed_once(editor: EditorModel, doc: DocumentView, inline_revision: u64)
    ensures
        editor.pending_outline_reveal_byte matches Some(byte) ==> editor.next_reveal() == Some(
            (byte, true),
        ) && editor.framed(doc, inline_revision).pending_scroll_to_byte
            == editor.pending_scroll_to_byte,
        editor.pending_outline_reveal_byte is None ==> {
            &&& editor.pending_scroll_to_byte matches Some(byte) ==> editor.next_reveal() == Some(
                (byte, false),
            )
            &&& editor.pending_scroll_to_byte is None ==> editor.next_reveal() is None
            &&& editor.framed(doc, inline_revision).next_reveal() is None
        },
        editor.framed(doc, inline_revision).pending_outline_reveal_byte is None,
        editor.framed(doc, inline_revision).search_query == editor.search_query,
        editor.framed(doc, inline_revision).search_active == editor.search_active,
        editor.framed(doc, inline_revision).search_current_match == editor.search_current_match,
        editor.framed(doc, inline_revision).marked_range == editor.marked_range,
        editor.framed(doc, inline_revision).ime_edit_active == editor.ime_edit_active,
        editor.framed(doc, inline_revision).caret_visible == editor.caret_visible,
{
}

/// Every command of the menu has its own name.
pub proof fn commands_are_named()
    ensures
        MenuCommand::Cut.label_spec() == seq!['C', 'u', 't'],
        MenuCommand::Copy.label_spec() == seq!['C', 'o', 'p', 'y'],
        MenuCommand::Paste.label_spec() == seq!['P', 'a', 's', 't', 'e'],
        MenuCommand::SelectAll.label_spec() == seq![
            'S',
            'e',
            'l',
            'e',
            'c',
            't',
            ' ',
            'A',
            'l',
            'l',
        ],
{
    reveal_strlit("Cut");
    reveal_strlit("Copy");
    reveal_strlit("Paste");
    reveal_strlit("Select All");
}

/// Markers and targets of links are muted, but for those of lists, tasks and code, which have the
/// color of text, as headings and code have. The text of a link has the color of links, and
/// emphasized text none of its own.
pub proof fn kinds_of_source_have_their_colors<C>(kind: SyntaxKind, style: MarkdownStyle<C>)
    ensures
        syntax_color(kind, style) is None <==> kind == SyntaxKind::EmphasisText || kind
            == SyntaxKind::StrongText,
        kind == SyntaxKind::LinkText ==> syntax_color(kind, style) == Some(style.link),
        kind == SyntaxKind::HeadingText || kind == SyntaxKind::ListMarker || kind
            == SyntaxKind::TaskMarker || kind == SyntaxKind::InlineCodeMarker || kind
            == SyntaxKind::InlineCode ==> syntax_color(kind, style) == Some(
            ThemeColor::<C>::Palette(style.foreground),
        ),
        kind == SyntaxKind::HeadingMarker || kind == SyntaxKind::QuoteMarker || kind
            == SyntaxKind::CodeFence || kind == SyntaxKind::LinkTextDelimiter || kind
            == SyntaxKind::LinkUrlDelimiter || kind == SyntaxKind::LinkUrl || kind
            == SyntaxKind::EmphasisMarker ==> syntax_color(kind, style) == Some(
            ThemeColor::<C>::Palette(style.muted_foreground),
        ),
{
}

/// Every span is colored where it stands, by its own kind.
pub proof fn every_span_is_colored<C>(spans: Seq<SyntaxSpan>, style: MarkdownStyle<C>)
    ensures
        colored(spans, style).len() == spans.len(),
        forall|k: int|
            0 <= k < spans.len() ==> #[trigger] colored(spans, style)[k] == (
                spans[k].range,
                syntax_color(spans[k].kind, style),
            ),
{
}

/// A color that the platform gives comes before that of the theme.
pub proof fn the_platform_comes_first<C>(color: C, fallback: Rgba)
    ensures
        preferred(Some(color), fallback) == ThemeColor::System(color),
        preferred(None::<C>, fallback) == ThemeColor::<C>::Palette(fallback),
{
}

/// Text, muted text, background, code and borders have the colors of the palette, links the accent
/// and accents the selection color, each of which the platform may give.
pub proof fn markdown_has_the_colors_of_the_theme<C>(colors: ThemeColors, system: SystemColors<C>)
    ensures
        ({
            let style = markdown_colors(colors, system);
            &&& style.foreground == colors.text
            &&& style.muted_foreground == colors.muted
            &&& style.background == colors.bg
            &&& style.code_background == colors.code_block_bg
            &&& style.border == colors.border
            &&& system.control_accent is None ==> style.link == ThemeColor::<C>::Palette(
                colors.accent,
            )
            &&& system.control_accent matches Some(color) ==> style.link == ThemeColor::System(
                color,
            )
            &&& system.selection_background is None ==> style.accent == ThemeColor::<C>::Palette(
                colors.selection_bg,
            )
            &&& system.selection_background matches Some(color) ==> style.accent
                == ThemeColor::System(color)
        }),
{
}

/// An opaque color has the red, green and blue of its number, and no transparency.
pub proof fn opaque_colors_keep_their_parts(red: int, green: int, blue: int)
    requires
        0 <= red < 0x100,
        0 <= green < 0x100,
        0 <= blue < 0x100,
    ensures
        opaque(red * 0x10000 + green * 0x100 + blue).hex == red * 0x1000000 + green * 0x10000
            + blue * 0x100 + 0xff,
{
}

/// The colors of every palette, with their transparency, and whether it is a dark one.
pub proof fn palettes_have_their_colors(name: ThemeName)
    ensures
        name == ThemeName::AyuLight ==> has_colors(
            name.palette(),
            seq![
                0xfafafaff,
                0xffffffff,
                0xf8f8f8ff,
                0xf0f0f0ff,
                0xf0f0f0ff,
                0xe7e7e7ff,
                0x5c6773ff,
                0xabb0b6ff,
                0xff9940ff,
                0xff994033,
            ],
        ) && !name.palette().is_dark,
        name == ThemeName::AyuDark ==> has_colors(
            name.palette(),
            seq![
                0x0b0e14ff,
                0x131721ff,
                0x0e1118ff,
                0x1a2029ff,
                0x171b24ff,
                0x22252eff,
                0xbfbdb6ff,
                0x565b66ff,
                0xe6b450ff,
                0xe6b45033,
            ],
        ) && name.palette().is_dark,
        name == ThemeName::AyuMirage ==> has_colors(
            name.palette(),
            seq![
                0x1f2430ff,
                0x262b38ff,
                0x232835ff,
                0x2e3442ff,
                0x252b38ff,
                0x2b3346ff,
                0xcbccc6ff,
                0x707a8cff,
                0xffcc66ff,
                0xffcc6633,
            ],
        ) && name.palette().is_dark,
{
}

/// A palette has the given colors: background, panel, sidebar, other panel, code, border, text,
/// muted text, accent and selection.
pub open spec fn has_colors(colors: ThemeColors, hex: Seq<u32>) -> bool {
    &&& colors.bg.hex == hex[0]
    &&& colors.panel.hex == hex[1]
    &&& colors.sidebar.hex == hex[2]
    &&& colors.panel_alt.hex == hex[3]
    &&& colors.code_block_bg.hex == hex[4]
    &&& colors.border.hex == hex[5]
    &&& colors.text.hex == hex[6]
    &&& colors.muted.hex == hex[7]
    &&& colors.accent.hex == hex[8]
    &&& colors.selection_bg.hex == hex[9]
}

/// Every theme has its own label.
pub proof fn themes_are_labeled()
    ensures
        ThemeName::AyuLight.label_spec() == seq!['A', 'y', 'u', ' ', 'L', 'i', 'g', 'h', 't'],
        ThemeName::AyuDark.label_spec() == seq!['A', 'y', 'u', ' ', 'D', 'a', 'r', 'k'],
        ThemeName::AyuMirage.label_spec() == seq![
            'A',
            'y',
            'u',
            ' ',
            'M',
            'i',
            'r',
            'a',
            'g',
            'e',
        ],
{
    reveal_strlit("Ayu Light");
    reveal_strlit("Ayu Dark");
    reveal_strlit("Ayu Mirage");
}

} // verus!
