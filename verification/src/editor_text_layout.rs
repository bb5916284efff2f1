//! The lines of the displayed text, each of which is laid out on its own, and how byte offsets
//! of the text stand to offsets in a line.
use std::ops::Range;
use vstd::prelude::*;
use vstd::string::*;
use vstd::utf8::{
    encode_utf8, encode_utf8_valid_utf8, is_char_boundary,
    is_char_boundary_iff_not_is_continuation_byte, is_char_boundary_start_end_of_seq,
    is_continuation_byte, length_of_first_scalar, pop_first_scalar, valid_utf8, valid_utf8_split,
};

verus! {

/// What stands for an empty line when it is laid out.
pub const EMPTY_LINE_PLACEHOLDER: &'static str = "\u{200B}";

/// The lines of the bytes from `index` on, where the first one started at `start`.
pub open spec fn lines_from(bytes: Seq<u8>, start: int, index: int) -> Seq<Range<usize>>
    decreases bytes.len() - index,
{
    if index >= bytes.len() {
        seq![Range { start: start as usize, end: bytes.len() as usize }]
    } else if bytes[index] == 10 {
        seq![Range { start: start as usize, end: index as usize }] + lines_from(
            bytes,
            index + 1,
            index + 1,
        )
    } else {
        lines_from(bytes, start, index + 1)
    }
}

/// The byte ranges of the lines, without the newlines between them.
pub open spec fn line_ranges(bytes: Seq<u8>) -> Seq<Range<usize>> {
    lines_from(bytes, 0, 0)
}

/// A range without a newline in it.
pub open spec fn has_no_newline(bytes: Seq<u8>, range: Range<usize>) -> bool {
    forall|i: int| range.start <= i < range.end ==> #[trigger] bytes[i] != 10
}

/// The ranges begin at `start`, end with the bytes, hold no newline and have one newline
/// between each two.
pub open spec fn are_lines(bytes: Seq<u8>, ranges: Seq<Range<usize>>, start: int) -> bool {
    &&& ranges.len() > 0
    &&& ranges[0].start == start
    &&& ranges.last().end == bytes.len()
    &&& forall|k: int|
        #![trigger ranges[k]]
        0 <= k < ranges.len() ==> ranges[k].start <= ranges[k].end <= bytes.len()
            && has_no_newline(bytes, ranges[k])
    &&& forall|j: int, k: int|
        #![trigger ranges[j], ranges[k]]
        0 <= j && k == j + 1 && k < ranges.len() ==> ranges[j].end + 1 == ranges[k].start
            && ranges[j].end < bytes.len() && bytes[ranges[j].end as int] == 10
}

/// From `start` on, the lines are those between newlines.
proof fn lines_from_are_lines(bytes: Seq<u8>, start: int, index: int)
    requires
        0 <= start <= index <= bytes.len() <= usize::MAX,
        forall|i: int| start <= i < index ==> #[trigger] bytes[i] != 10,
    ensures
        are_lines(bytes, lines_from(bytes, start, index), start),
    decreases bytes.len() - index,
{
    if index < bytes.len() {
        if bytes[index] == 10 {
            lines_from_are_lines(bytes, index + 1, index + 1);
            let rest = lines_from(bytes, index + 1, index + 1);
            let all = lines_from(bytes, start, index);
            assert(forall|k: int| 0 < k < all.len() ==> #[trigger] all[k] == rest[k - 1]);
            assert(all.last() == rest.last());
        } else {
            lines_from_are_lines(bytes, start, index + 1);
        }
    }
}

/// The lines of a text cover it from its start to its end, hold no newline, and have one
/// newline between each two.
pub proof fn line_ranges_are_lines(bytes: Seq<u8>)
    requires
        bytes.len() <= usize::MAX,
    ensures
        are_lines(bytes, line_ranges(bytes), 0),
{
    lines_from_are_lines(bytes, 0, 0);
}

/// The part of a highlight that lies in a line, counted from the start of the line.
pub open spec fn clipped(range: Range<usize>, line: Range<usize>) -> Option<Range<usize>> {
    let start = if range.start <= line.start {
        line.start
    } else {
        range.start
    };
    let end = if range.end <= line.end {
        range.end
    } else {
        line.end
    };
    if start < end {
        Some(Range { start: (start - line.start) as usize, end: (end - line.start) as usize })
    } else {
        None
    }
}

/// The parts of the highlights that lie in a line.
pub open spec fn clipped_highlights<S>(
    highlights: Seq<(Range<usize>, S)>,
    line: Range<usize>,
) -> Seq<(Range<usize>, S)>
    decreases highlights.len(),
{
    if highlights.len() == 0 {
        Seq::empty()
    } else {
        let rest = clipped_highlights(highlights.drop_last(), line);
        match clipped(highlights.last().0, line) {
            Some(range) => rest.push((range, highlights.last().1)),
            None => rest,
        }
    }
}

/// Highlights that are cut to a line are not empty and lie in it.
pub proof fn clipped_highlights_lie_in_the_line<S>(
    highlights: Seq<(Range<usize>, S)>,
    line: Range<usize>,
)
    ensures
        forall|k: int|
            0 <= k < clipped_highlights(highlights, line).len() ==> (
            #[trigger] clipped_highlights(highlights, line)[k]).0.start < clipped_highlights(
                highlights,
                line,
            )[k].0.end <= line.end - line.start,
    decreases highlights.len(),
{
    if highlights.len() > 0 {
        clipped_highlights_lie_in_the_line(highlights.drop_last(), line);
        let rest = clipped_highlights(highlights.drop_last(), line);
        let all = clipped_highlights(highlights, line);
        assert(forall|k: int| 0 <= k < rest.len() ==> #[trigger] all[k] == rest[k]);
        clipped_lies_in_the_line(highlights.last().0, line);
    }
}

proof fn clipped_lies_in_the_line(range: Range<usize>, line: Range<usize>)
    ensures
        clipped(range, line) matches Some(part) ==> part.start < part.end <= line.end - line.start,
{
}

/// The byte ranges of the lines of a text.
pub fn display_line_ranges(text: &str) -> (ranges: Vec<Range<usize>>)
    ensures
        ranges@ == line_ranges(encode_utf8(text@)),
{
    let bytes = text.as_bytes();
    let mut ranges: Vec<Range<usize>> = Vec::new();
    let mut start: usize = 0;
    let mut index: usize = 0;
    while index < bytes.len()
        invariant
            start <= index <= bytes@.len(),
            ranges@ + lines_from(bytes@, start as int, index as int) == line_ranges(bytes@),
        decreases bytes@.len() - index,
    {
        let ghost before = ranges@;
        if bytes[index] == 10 {
            ranges.push(start..index);
            assert(ranges@ + lines_from(bytes@, index + 1, index + 1) =~= before + lines_from(
                bytes@,
                start as int,
                index as int,
            ));
            start = index + 1;
        }
        index = index + 1;
    }
    ranges.push(start..bytes.len());
    ranges
}

/// The parts of the highlights that lie in a line, counted from its start.
pub fn highlights_for_line<S: Copy>(
    highlights: &Vec<(Range<usize>, S)>,
    line: &Range<usize>,
) -> (inside: Vec<(Range<usize>, S)>)
    ensures
        inside@ == clipped_highlights(highlights@, *line),
{
    let mut inside: Vec<(Range<usize>, S)> = Vec::new();
    let mut i: usize = 0;
    while i < highlights.len()
        invariant
            i <= highlights@.len(),
            inside@ == clipped_highlights(highlights@.take(i as int), *line),
        decreases highlights@.len() - i,
    {
        proof {
            assert(highlights@.take(i + 1).drop_last() =~= highlights@.take(i as int));
        }
        let range = &highlights[i].0;
        let start = if range.start <= line.start {
            line.start
        } else {
            range.start
        };
        let end = if range.end <= line.end {
            range.end
        } else {
            line.end
        };
        if start < end {
            inside.push(((start - line.start)..(end - line.start), highlights[i].1));
        }
        i = i + 1;
    }
    proof {
        assert(highlights@.take(i as int) =~= highlights@);
    }
    inside
}

/// The lines that are laid out, behind the mapping of byte offsets that one text has.
#[derive(Debug)]
pub struct EditorTextLayout {
    /// The byte range of each line.
    pub lines: Vec<Range<usize>>,
    /// The number of bytes of the text.
    pub display_len: usize,
}

impl Default for EditorTextLayout {
    fn default() -> (layout: Self)
        ensures
            layout.lines@ == Seq::<Range<usize>>::empty(),
            layout.display_len == 0,
    {
        EditorTextLayout { lines: Vec::new(), display_len: 0 }
    }
}

/// The first line from `index` on that does not end before the given byte, or the number of
/// lines if there is none.
pub open spec fn line_from(lines: Seq<Range<usize>>, byte: int, index: int) -> int
    decreases lines.len() - index,
{
    if index >= lines.len() || byte <= lines[index].end {
        index
    } else {
        line_from(lines, byte, index + 1)
    }
}

/// The first line of those that are closest, or none if there are no lines.
pub open spec fn is_closest(distances: Seq<u32>, line: Option<usize>) -> bool {
    match line {
        Some(line) => {
            &&& line < distances.len()
            &&& forall|k: int|
                0 <= k < distances.len() ==> distances[line as int] <= #[trigger] distances[k]
            &&& forall|k: int| 0 <= k < line ==> distances[line as int] < #[trigger] distances[k]
        },
        None => distances.len() == 0,
    }
}

impl EditorTextLayout {
    /// The lines are ranges of the text.
    pub open spec fn wf(self) -> bool {
        forall|k: int|
            #![trigger self.lines@[k]]
            0 <= k < self.lines@.len() ==> self.lines@[k].start <= self.lines@[k].end
                <= self.display_len
    }

    /// The layout of a text.
    pub open spec fn lays_out(self, text: Seq<char>) -> bool {
        &&& self.lines@ == line_ranges(encode_utf8(text))
        &&& self.display_len == encode_utf8(text).len()
    }

    /// The line of a byte: the first that does not end before it, or the last one.
    pub open spec fn line_of(self, index: int) -> Option<usize> {
        let index = if index <= self.display_len {
            index
        } else {
            self.display_len as int
        };
        let line = line_from(self.lines@, index, 0);
        if self.lines@.len() == 0 {
            None
        } else if line < self.lines@.len() {
            Some(line as usize)
        } else {
            Some((self.lines@.len() - 1) as usize)
        }
    }

    /// The offset of a byte in its line, at most the length of the line.
    pub open spec fn offset_in(self, line: int, index: int) -> usize {
        let range = self.lines@[line];
        if index < range.start {
            0
        } else if index <= range.end {
            (index - range.start) as usize
        } else {
            (range.end - range.start) as usize
        }
    }

    /// The byte of the text at an offset of a line, at most the end of the line.
    pub open spec fn byte_at(self, line: int, offset: int) -> usize {
        let range = self.lines@[line];
        if offset <= range.end - range.start {
            (range.start + offset) as usize
        } else {
            range.end
        }
    }

    /// The byte of the text for a position, from the line that is closest to it and what the
    /// layout of that line says of the position: the offset that it is on, or the one that it
    /// is next to.
    pub fn index_for_position(&self, line: Option<usize>, offset: Result<usize, usize>) -> (index:
        Result<usize, usize>)
        requires
            self.wf(),
            line matches Some(line) ==> line < self.lines@.len(),
        ensures
            index == (match line {
                None => Ok(0usize),
                Some(line) => if self.lines@[line as int].start == self.lines@[line as int].end {
                    Ok(self.lines@[line as int].start)
                } else {
                    match offset {
                        Ok(offset) => Ok(self.byte_at(line as int, offset as int)),
                        Err(offset) => Err(self.byte_at(line as int, offset as int)),
                    }
                },
            }),
    {
        match line {
            None => Ok(0),
            Some(line) => {
                let start = self.lines[line].start;
                let line_len = self.lines[line].end - start;
                if line_len == 0 {
                    return Ok(start);
                }
                match offset {
                    Ok(offset) => Ok(
                        start + if offset <= line_len {
                            offset
                        } else {
                            line_len
                        },
                    ),
                    Err(offset) => Err(
                        start + if offset <= line_len {
                            offset
                        } else {
                            line_len
                        },
                    ),
                }
            },
        }
    }

    /// The line of a byte of the text and the offset in it, which the layout of that line has a
    /// position for.
    pub fn position_for_index(&self, index: usize) -> (place: Option<(usize, usize)>)
        requires
            self.wf(),
        ensures
            place == (match self.line_of(index as int) {
                Some(line) => Some((line, self.offset_in(line as int, index as int))),
                None => None,
            }),
    {
        match self.line_for_index(index) {
            Some(line) => {
                let start = self.lines[line].start;
                let line_len = self.lines[line].end - start;
                let offset = if index < start {
                    0
                } else {
                    index - start
                };
                Some(
                    (
                        line,
                        if offset <= line_len {
                            offset
                        } else {
                            line_len
                        },
                    ),
                )
            },
            None => None,
        }
    }

    /// The line whose height is that of a byte of the text.
    pub fn line_height_for_index(&self, index: usize) -> (line: Option<usize>)
        ensures
            line == self.line_of(index as int),
    {
        self.line_for_index(index)
    }

    fn line_for_index(&self, index: usize) -> (line: Option<usize>)
        ensures
            line == self.line_of(index as int),
            line matches Some(line) ==> line < self.lines@.len(),
    {
        let byte = if index <= self.display_len {
            index
        } else {
            self.display_len
        };
        let mut line: usize = 0;
        while line < self.lines.len()
            invariant
                line <= self.lines@.len(),
                byte == (if index <= self.display_len {
                    index
                } else {
                    self.display_len
                }),
                line_from(self.lines@, byte as int, line as int) == line_from(
                    self.lines@,
                    byte as int,
                    0,
                ),
            decreases self.lines@.len() - line,
        {
            if byte <= self.lines[line].end {
                return Some(line);
            }
            line = line + 1;
        }
        if line == 0 {
            None
        } else {
            Some(line - 1)
        }
    }

    /// The first of the lines that are closest to a position, by their vertical distances from
    /// it. The distances are not negative, and given by the bits of their floating point
    /// numbers, which are in the order of the numbers.
    pub fn closest_line(&self, distances: &Vec<u32>) -> (line: Option<usize>)
        ensures
            is_closest(distances@, line),
    {
        if distances.len() == 0 {
            return None;
        }
        let mut closest: usize = 0;
        let mut line: usize = 1;
        while line < distances.len()
            invariant
                closest < line <= distances@.len(),
                forall|k: int|
                    0 <= k < line ==> distances@[closest as int] <= #[trigger] distances@[k],
                forall|k: int|
                    0 <= k < closest ==> distances@[closest as int] < #[trigger] distances@[k],
            decreases distances@.len() - line,
        {
            if distances[line] < distances[closest] {
                closest = line;
            }
            line = line + 1;
        }
        Some(closest)
    }
}

/// In the layout of a text, every byte is found again in its line.
pub proof fn position_and_back(layout: EditorTextLayout, text: Seq<char>, index: int)
    requires
        layout.lays_out(text),
        0 <= index <= encode_utf8(text).len(),
    ensures
        layout.wf(),
        layout.line_of(index) matches Some(line) && line < layout.lines@.len() && layout.byte_at(
            line as int,
            layout.offset_in(line as int, index) as int,
        ) == index,
{
    let bytes = encode_utf8(text);
    line_ranges_are_lines(bytes);
    line_from_finds(layout.lines@, index, 0);
    let line = line_from(layout.lines@, index, 0);
    assert(layout.lines@.last().end >= index);
    assert(layout.lines@.len() == layout.lines.len());
    assert(line < layout.lines@.len());
    if line > 0 {
        assert(layout.lines@[line - 1].end < index);
        assert(layout.lines@[line - 1].end + 1 == layout.lines@[line].start);
    }
}

/// The line that is found does not end before the byte, and those before it do.
proof fn line_from_finds(lines: Seq<Range<usize>>, byte: int, index: int)
    requires
        0 <= index <= lines.len(),
    ensures
        index <= line_from(lines, byte, index) <= lines.len(),
        line_from(lines, byte, index) < lines.len() ==> byte <= lines[line_from(
            lines,
            byte,
            index,
        )].end,
        forall|k: int|
            index <= k < line_from(lines, byte, index) ==> (#[trigger] lines[k]).end < byte,
    decreases lines.len() - index,
{
    if index < lines.len() && byte > lines[index].end {
        line_from_finds(lines, byte, index + 1);
    }
}

/// One line as it is laid out.
#[derive(Debug)]
pub struct EditorLine<S> {
    pub display_range: Range<usize>,
    /// The text of the line, or what stands for an empty one.
    pub text: String,
    /// The highlights in the line, counted from its start.
    pub highlights: Vec<(Range<usize>, S)>,
    /// The level of the heading that the line is, if it is one.
    pub heading_level: Option<u8>,
}

impl<S> EditorLine<S> {
    /// The line lays out a range of the text.
    pub open spec fn lays_out(
        self,
        bytes: Seq<u8>,
        range: Range<usize>,
        highlights: Seq<(Range<usize>, S)>,
        heading_level: Option<u8>,
    ) -> bool {
        &&& self.display_range == range
        &&& self.heading_level == heading_level
        &&& if range.start == range.end {
            &&& self.text@ == EMPTY_LINE_PLACEHOLDER@
            &&& self.highlights@ == Seq::<(Range<usize>, S)>::empty()
        } else {
            &&& encode_utf8(self.text@) == bytes.subrange(range.start as int, range.end as int)
            &&& self.highlights@ == clipped_highlights(highlights, range)
        }
    }
}

/// The lines of a text as they are laid out, and the mapping of their byte offsets.
#[derive(Debug)]
pub struct EditorTextRender<S> {
    pub lines: Vec<EditorLine<S>>,
    pub layout: EditorTextLayout,
}

/// The level of the heading that a line is, as far as the levels reach.
pub open spec fn level_of(levels: Seq<Option<u8>>, line: int) -> Option<u8> {
    if line < levels.len() {
        levels[line]
    } else {
        None
    }
}

/// A newline stands between two character boundaries.
proof fn newline_is_a_character(bytes: Seq<u8>, index: int)
    requires
        valid_utf8(bytes),
        0 <= index < bytes.len(),
        bytes[index] == 10,
    ensures
        is_char_boundary(bytes, index),
        is_char_boundary(bytes, index + 1),
{
    assert(!is_continuation_byte(10u8));
    is_char_boundary_iff_not_is_continuation_byte(bytes, index);
    if index + 1 == bytes.len() {
        is_char_boundary_start_end_of_seq(bytes);
    } else {
        let rest = bytes.subrange(index, bytes.len() as int);
        valid_utf8_split(bytes, index);
        assert(valid_utf8(rest));
        assert(rest[0] == 10);
        assert(length_of_first_scalar(rest) == 1);
        let tail = pop_first_scalar(rest);
        assert(valid_utf8(tail));
        assert(tail[0] == bytes[index + 1]);
        is_char_boundary_start_end_of_seq(tail);
        is_char_boundary_iff_not_is_continuation_byte(tail, 0);
        is_char_boundary_iff_not_is_continuation_byte(bytes, index + 1);
    }
}

/// Every line stands between two character boundaries.
proof fn lines_hold_whole_characters(bytes: Seq<u8>, line: int)
    requires
        valid_utf8(bytes),
        bytes.len() <= usize::MAX,
        0 <= line < line_ranges(bytes).len(),
    ensures
        line_ranges(bytes)[line].start <= line_ranges(bytes)[line].end <= bytes.len(),
        is_char_boundary(bytes, line_ranges(bytes)[line].start as int),
        is_char_boundary(bytes, line_ranges(bytes)[line].end as int),
{
    let ranges = line_ranges(bytes);
    line_ranges_are_lines(bytes);
    is_char_boundary_start_end_of_seq(bytes);
    if line > 0 {
        assert(ranges[line - 1].end + 1 == ranges[line].start);
        newline_is_a_character(bytes, ranges[line - 1].end as int);
    }
    if line < ranges.len() - 1 {
        assert(ranges[line].end + 1 == ranges[line + 1].start);
        newline_is_a_character(bytes, ranges[line].end as int);
    }
}

/// The bytes of a string in a range.
fn line_text<'a>(text: &'a str, range: &Range<usize>) -> (line: &'a str)
    requires
        range.start <= range.end,
        is_char_boundary(encode_utf8(text@), range.start as int),
        is_char_boundary(encode_utf8(text@), range.end as int),
        range.end <= encode_utf8(text@).len(),
    ensures
        encode_utf8(line@) == encode_utf8(text@).subrange(range.start as int, range.end as int),
{
    let start = range.start;
    let ghost bytes = encode_utf8(text@);
    let (before, behind) = text.split_at(start);
    proof {
        encode_utf8_valid_utf8(text@);
        boundary_in_rest(bytes, start as int, range.end as int);
        assert(behind.spec_bytes() == bytes.subrange(start as int, bytes.len() as int));
    }
    let (line, rest) = behind.split_at(range.end - start);
    proof {
        assert(line.spec_bytes() =~= bytes.subrange(start as int, range.end as int));
    }
    line
}

/// A boundary is one in the rest of the bytes too.
proof fn boundary_in_rest(bytes: Seq<u8>, start: int, at: int)
    requires
        valid_utf8(bytes),
        0 <= start <= at <= bytes.len(),
        is_char_boundary(bytes, start),
        is_char_boundary(bytes, at),
    ensures
        is_char_boundary(bytes.subrange(start, bytes.len() as int), at - start),
{
    let rest = bytes.subrange(start, bytes.len() as int);
    valid_utf8_split(bytes, start);
    is_char_boundary_start_end_of_seq(rest);
    if at < bytes.len() {
        is_char_boundary_iff_not_is_continuation_byte(bytes, at);
        is_char_boundary_iff_not_is_continuation_byte(rest, at - start);
        assert(rest[at - start] == bytes[at]);
    }
}

/// The lines of a source, which the levels of its headings are read from.
pub fn source_lines(source: &str) -> (lines: Vec<String>)
    ensures
        lines@.len() == line_ranges(encode_utf8(source@)).len(),
        forall|k: int|
            #![trigger lines@[k]]
            0 <= k < lines@.len() ==> encode_utf8(lines@[k]@) == encode_utf8(source@).subrange(
                line_ranges(encode_utf8(source@))[k].start as int,
                line_ranges(encode_utf8(source@))[k].end as int,
            ),
{
    let ranges = display_line_ranges(source);
    let _len = source.as_bytes().len();
    let ghost bytes = encode_utf8(source@);
    let mut lines: Vec<String> = Vec::new();
    let mut index: usize = 0;
    proof {
        encode_utf8_valid_utf8(source@);
    }
    while index < ranges.len()
        invariant
            bytes == encode_utf8(source@),
            valid_utf8(bytes),
            bytes.len() <= usize::MAX,
            ranges@ == line_ranges(bytes),
            index <= ranges@.len(),
            lines@.len() == index,
            forall|k: int|
                #![trigger lines@[k]]
                0 <= k < index ==> encode_utf8(lines@[k]@) == bytes.subrange(
                    ranges@[k].start as int,
                    ranges@[k].end as int,
                ),
        decreases ranges@.len() - index,
    {
        proof {
            lines_hold_whole_characters(bytes, index as int);
        }
        lines.push(line_text(source, &ranges[index]).to_owned());
        index = index + 1;
    }
    lines
}

/// Builds one line for each line of the text, so that headings can have a font size of their
/// own. The levels are those of the lines of the source, in order.
pub fn render_editor_text<S: Copy>(
    display_text: &str,
    heading_levels: &Vec<Option<u8>>,
    highlights: &Vec<(Range<usize>, S)>,
) -> (render: EditorTextRender<S>)
    ensures
        render.layout.lays_out(display_text@),
        render.lines@.len() == render.layout.lines@.len(),
        forall|k: int|
            0 <= k < render.lines@.len() ==> (#[trigger] render.lines@[k]).lays_out(
                encode_utf8(display_text@),
                line_ranges(encode_utf8(display_text@))[k],
                highlights@,
                level_of(heading_levels@, k),
            ),
{
    let display_ranges = display_line_ranges(display_text);
    let display_len = display_text.as_bytes().len();
    let ghost bytes = encode_utf8(display_text@);
    let mut lines: Vec<EditorLine<S>> = Vec::new();
    let mut index: usize = 0;
    proof {
        encode_utf8_valid_utf8(display_text@);
    }
    while index < display_ranges.len()
        invariant
            bytes == encode_utf8(display_text@),
            valid_utf8(bytes),
            bytes.len() <= usize::MAX,
            display_ranges@ == line_ranges(bytes),
            index <= display_ranges@.len(),
            lines@.len() == index,
            forall|k: int|
                0 <= k < index ==> (#[trigger] lines@[k]).lays_out(
                    bytes,
                    display_ranges@[k],
                    highlights@,
                    level_of(heading_levels@, k),
                ),
        decreases display_ranges@.len() - index,
    {
        proof {
            lines_hold_whole_characters(bytes, index as int);
        }
        let range = &display_ranges[index];
        let heading_level = if index < heading_levels.len() {
            heading_levels[index]
        } else {
            None
        };
        let (text, line_highlights) = if range.start == range.end {
            (EMPTY_LINE_PLACEHOLDER.to_owned(), Vec::new())
        } else {
            (line_text(display_text, range).to_owned(), highlights_for_line(highlights, range))
        };
        lines.push(
            EditorLine {
                display_range: range.start..range.end,
                text,
                highlights: line_highlights,
                heading_level,
            },
        );
        index = index + 1;
    }
    EditorTextRender { lines, layout: EditorTextLayout { lines: display_ranges, display_len } }
}

} // verus!
