//! How the bytes of a document's source stand to the bytes of the text that is displayed.
use std::ops::Range;
use vstd::prelude::*;
use vstd::utf8::encode_utf8;

verus! {

/// A range of the source, and where it stands in the displayed text. A hidden one takes no
/// room there.
#[derive(Debug)]
pub struct ProjectionSegment {
    pub source: Range<usize>,
    pub display_start: usize,
    pub hidden: bool,
}

impl ProjectionSegment {
    /// Where the segment ends in the displayed text.
    pub open spec fn display_end(self) -> int {
        self.display_start + if self.hidden {
            0
        } else {
            self.source.end - self.source.start
        }
    }
}

/// The displayed text, with the segments that it is made of, in order.
#[derive(Debug)]
pub struct DisplayProjection {
    pub display_text: String,
    pub source_len: usize,
    pub segments: Vec<ProjectionSegment>,
}

/// A projection, over the characters of its text.
#[verifier::ext_equal]
pub struct ProjectionView {
    pub text: Seq<char>,
    pub source_len: usize,
    pub segments: Seq<ProjectionSegment>,
}

impl View for DisplayProjection {
    type V = ProjectionView;

    open spec fn view(&self) -> ProjectionView {
        ProjectionView {
            text: self.display_text@,
            source_len: self.source_len,
            segments: self.segments@,
        }
    }
}

impl Clone for DisplayProjection {
    fn clone(&self) -> (copy: Self)
        ensures
            copy@ == self@,
    {
        let mut segments: Vec<ProjectionSegment> = Vec::new();
        let mut i: usize = 0;
        while i < self.segments.len()
            invariant
                i <= self.segments@.len(),
                segments@ == self.segments@.take(i as int),
            decreases self.segments@.len() - i,
        {
            let segment = &self.segments[i];
            segments.push(
                ProjectionSegment {
                    source: segment.source.start..segment.source.end,
                    display_start: segment.display_start,
                    hidden: segment.hidden,
                },
            );
            i = i + 1;
        }
        DisplayProjection {
            display_text: self.display_text.clone(),
            source_len: self.source_len,
            segments,
        }
    }
}

/// The first segment from `index` on that does not end before the given byte, or the number
/// of segments if there is none.
pub open spec fn segment_from(segments: Seq<ProjectionSegment>, byte: int, index: int) -> int
    decreases segments.len() - index,
{
    if index >= segments.len() || segments[index].source.end >= byte {
        index
    } else {
        segment_from(segments, byte, index + 1)
    }
}

/// The source byte for a displayed one, as the segments from `index` on give it. `mapped` is
/// what it is if they do not.
pub open spec fn source_from(
    segments: Seq<ProjectionSegment>,
    byte: int,
    mapped: int,
    index: int,
) -> int
    decreases segments.len() - index,
{
    if index >= segments.len() {
        mapped
    } else {
        let segment = segments[index];
        if byte < segment.display_start {
            segment.source.start as int
        } else if segment.hidden {
            source_from(
                segments,
                byte,
                if byte == segment.display_start {
                    segment.source.end as int
                } else {
                    mapped
                },
                index + 1,
            )
        } else if byte < segment.display_end() {
            segment.source.start + (byte - segment.display_start)
        } else {
            source_from(
                segments,
                byte,
                if byte == segment.display_end() {
                    segment.source.end as int
                } else {
                    mapped
                },
                index + 1,
            )
        }
    }
}

impl DisplayProjection {
    /// The number of bytes of the displayed text.
    pub open spec fn display_len(self) -> int {
        encode_utf8(self.display_text@).len() as int
    }

    /// The segments are ranges of the source and of the displayed text, in order.
    pub open spec fn wf(self) -> bool {
        &&& self.display_len() <= usize::MAX
        &&& forall|i: int|
            #![trigger self.segments@[i]]
            0 <= i < self.segments.len() ==> {
                &&& self.segments@[i].source.start <= self.segments@[i].source.end
                    <= self.source_len
                &&& self.segments@[i].display_end() <= self.display_len()
            }
        &&& forall|i: int, j: int|
            #![trigger self.segments@[i], self.segments@[j]]
            0 <= i < j < self.segments.len() ==> {
                &&& self.segments@[i].source.end <= self.segments@[j].source.start
                &&& self.segments@[i].display_end() <= self.segments@[j].display_start
            }
    }

    /// The projection that displays the source as it is.
    pub open spec fn shows(self, source: Seq<char>) -> bool {
        &&& self.display_text@ == source
        &&& self.source_len == encode_utf8(source).len()
        &&& self.segments.len() == 1
        &&& self.segments[0] == (ProjectionSegment {
            source: Range { start: 0, end: self.source_len },
            display_start: 0,
            hidden: false,
        })
    }

    /// The displayed byte for a source byte.
    pub open spec fn display_byte(self, source_byte: int) -> int {
        let byte = if source_byte <= self.source_len {
            source_byte
        } else {
            self.source_len as int
        };
        let index = segment_from(self.segments@, byte, 0);
        if index >= self.segments.len() {
            self.display_len()
        } else {
            let segment = self.segments@[index];
            if byte < segment.source.start || segment.hidden {
                segment.display_start as int
            } else {
                segment.display_start + (byte - segment.source.start)
            }
        }
    }

    /// The source byte for a displayed byte.
    pub open spec fn source_byte(self, display_byte: int) -> int {
        let byte = if display_byte <= self.display_len() {
            display_byte
        } else {
            self.display_len()
        };
        let mapped = source_from(self.segments@, byte, self.source_len as int, 0);
        if mapped <= self.source_len {
            mapped
        } else {
            self.source_len as int
        }
    }

    /// The ranges of highlights in the displayed text; those that take no room there are gone.
    pub open spec fn projected<S>(self, highlights: Seq<(Range<usize>, S)>) -> Seq<
        (Range<usize>, S),
    > {
        highlights.map_values(
            |highlight: (Range<usize>, S)|
                (
                    Range {
                        start: self.display_byte(highlight.0.start as int) as usize,
                        end: self.display_byte(highlight.0.end as int) as usize,
                    },
                    highlight.1,
                ),
        ).filter(|highlight: (Range<usize>, S)| highlight.0.start < highlight.0.end)
    }

    /// Creates the editor's identity source projection.
    ///
    /// Edit mode intentionally displays every Markdown byte, so cursor, selection,
    /// search, and IME offsets all use the original document source directly.
    pub fn from_source(source: &str) -> (projection: Self)
        ensures
            projection.shows(source@),
            projection.wf(),
    {
        let source_len = source.as_bytes().len();
        let mut segments: Vec<ProjectionSegment> = Vec::new();
        segments.push(
            ProjectionSegment { source: 0..source_len, display_start: 0, hidden: false },
        );
        DisplayProjection { display_text: source.to_string(), source_len, segments }
    }

    pub fn source_to_display_byte(&self, source_byte: usize) -> (byte: usize)
        requires
            self.wf(),
        ensures
            byte == self.display_byte(source_byte as int),
            byte <= self.display_len(),
    {
        let source_byte = if source_byte <= self.source_len {
            source_byte
        } else {
            self.source_len
        };
        let mut index: usize = 0;
        while index < self.segments.len() && self.segments[index].source.end < source_byte
            invariant
                index <= self.segments.len(),
                segment_from(self.segments@, source_byte as int, 0) == segment_from(
                    self.segments@,
                    source_byte as int,
                    index as int,
                ),
            decreases self.segments.len() - index,
        {
            index = index + 1;
        }
        if index >= self.segments.len() {
            return self.display_text.as_str().as_bytes().len();
        }
        let segment = &self.segments[index];
        if source_byte < segment.source.start || segment.hidden {
            return segment.display_start;
        }
        segment.display_start + (source_byte - segment.source.start)
    }

    pub fn display_to_source_byte(&self, display_byte: usize) -> (byte: usize)
        requires
            self.wf(),
        ensures
            byte == self.source_byte(display_byte as int),
            byte <= self.source_len,
    {
        let display_len = self.display_text.as_str().as_bytes().len();
        let target = if display_byte <= display_len {
            display_byte
        } else {
            display_len
        };
        let mut mapped = self.source_len;
        let mut index: usize = 0;
        while index < self.segments.len()
            invariant
                self.wf(),
                index <= self.segments.len(),
                target == (if display_byte <= self.display_len() {
                    display_byte as int
                } else {
                    self.display_len()
                }),
                source_from(self.segments@, target as int, self.source_len as int, 0)
                    == source_from(
                    self.segments@,
                    target as int,
                    mapped as int,
                    index as int,
                ),
            decreases self.segments.len() - index,
        {
            let segment = &self.segments[index];
            if target < segment.display_start {
                return segment.source.start;
            }
            if segment.hidden {
                // Hidden Markdown syntax occupies no display width. When the caret lands exactly
                // on that boundary, bias it to the right so typing after a rendered link happens
                // after `](...)` rather than inside the hidden Markdown syntax.
                if target == segment.display_start {
                    mapped = segment.source.end;
                }
            } else {
                let display_end = segment.display_start + (segment.source.end
                    - segment.source.start);
                if target < display_end {
                    return segment.source.start + (target - segment.display_start);
                }
                if target == display_end {
                    mapped = segment.source.end;
                }
            }
            index = index + 1;
        }
        if mapped <= self.source_len {
            mapped
        } else {
            self.source_len
        }
    }

    pub fn project_highlights<S>(&self, highlights: Vec<(Range<usize>, S)>) -> (projected: Vec<
        (Range<usize>, S),
    >)
        requires
            self.wf(),
        ensures
            projected@ == self.projected(highlights@),
    {
        let mut projected: Vec<(Range<usize>, S)> = Vec::new();
        let ghost all = highlights@;
        for highlight in it: highlights
            invariant
                self.wf(),
                it.seq() == all,
                projected@ == self.projected(all.take(it.index() as int)),
        {
            proof {
                let k = it.index() as int;
                reveal(Seq::filter);
                let project = |highlight: (Range<usize>, S)|
                    (
                        Range {
                            start: self.display_byte(highlight.0.start as int) as usize,
                            end: self.display_byte(highlight.0.end as int) as usize,
                        },
                        highlight.1,
                    );
                assert(all.take(k + 1).map_values(project).drop_last() =~= all.take(k).map_values(
                    project,
                ));
                assert(all.take(k + 1).map_values(project).last() == project(all[k]));
            }
            let (range, style) = highlight;
            let start = self.source_to_display_byte(range.start);
            let end = self.source_to_display_byte(range.end);
            if start < end {
                projected.push((start..end, style));
            }
        }
        proof {
            assert(all.take(all.len() as int) =~= all);
        }
        projected
    }
}

/// A projection that shows the source as it is maps every byte offset to itself, both ways.
pub proof fn source_projection_maps_every_byte_to_itself(
    projection: DisplayProjection,
    source: Seq<char>,
    byte: int,
)
    requires
        projection.shows(source),
        0 <= byte <= encode_utf8(source).len(),
    ensures
        projection.display_byte(byte) == byte,
        projection.source_byte(byte) == byte,
{
    reveal_with_fuel(segment_from, 2);
    reveal_with_fuel(source_from, 3);
}

/// A projection maps source bytes in order: a later byte is not displayed before an earlier one.
pub proof fn display_bytes_keep_their_order(projection: DisplayProjection, first: int, second: int)
    requires
        projection.wf(),
        first <= second,
    ensures
        projection.display_byte(first) <= projection.display_byte(second),
{
    let a = if first <= projection.source_len {
        first
    } else {
        projection.source_len as int
    };
    let b = if second <= projection.source_len {
        second
    } else {
        projection.source_len as int
    };
    segment_from_bounds(projection.segments@, a, 0);
    segment_from_bounds(projection.segments@, b, 0);
    let i = segment_from(projection.segments@, a, 0);
    let j = segment_from(projection.segments@, b, 0);
    if i < projection.segments.len() {
        assert(i <= j) by {
            if j < i {
                assert(projection.segments@[j].source.end < a);
            }
        }
        if j < projection.segments.len() {
            assert(projection.segments@[i].display_start <= projection.segments@[j].display_start);
        }
    }
}

/// The segment found ends at the byte or behind it, and those before it end before the byte.
proof fn segment_from_bounds(segments: Seq<ProjectionSegment>, byte: int, index: int)
    requires
        0 <= index <= segments.len(),
    ensures
        index <= segment_from(segments, byte, index) <= segments.len(),
        segment_from(segments, byte, index) < segments.len() ==> segments[segment_from(
            segments,
            byte,
            index,
        )].source.end >= byte,
        forall|i: int|
            index <= i < segment_from(segments, byte, index) ==> (#[trigger] segments[i]).source.end
                < byte,
    decreases segments.len() - index,
{
    if index < segments.len() && segments[index].source.end < byte {
        segment_from_bounds(segments, byte, index + 1);
    }
}

} // verus!
