//! What one frame of the editor shows.
use crate::document::{byte_of, byte_range, DocumentState, DocumentView};
use crate::editor::{source_projection, EditorModel, EditorView};
use crate::inline_markdown::InlineMarkdownState;
use crate::projection::{DisplayProjection, ProjectionView};
use crate::syntax::{colored, inline_syntax_highlights};
use crate::system_colors::ThemeColor;
use crate::theme::MarkdownStyle;
use std::ops::Range;
use vstd::prelude::*;

verus! {

/// What a range is highlighted for.
#[derive(Debug, Clone, Copy, PartialEq, Eq, Structural)]
pub enum Emphasis {
    SearchMatch,
    Selection,
}

/// A frame of the editor. All ranges and offsets are bytes of the displayed text.
#[derive(Debug)]
pub struct EditorFrame<C> {
    pub text: String,
    pub revision: u64,
    pub projection: DisplayProjection,
    pub cursor_display_byte: usize,
    pub has_selection: bool,
    pub draw_caret: bool,
    pub syntax_highlights: Vec<(Range<usize>, Option<ThemeColor<C>>)>,
    pub search_highlights: Vec<(Range<usize>, Emphasis)>,
    pub selection_highlights: Vec<(Range<usize>, Emphasis)>,
    pub search_match_count: usize,
    /// The number of the current match, from one on.
    pub search_match_display: usize,
    /// The source byte to reveal after layout, and whether it is to be aligned to the top.
    pub pending_reveal: Option<(usize, bool)>,
    /// Platform input goes to the document.
    pub input_enabled: bool,
}

/// Ranges with what they are highlighted for.
pub open spec fn emphasized(ranges: Seq<Range<usize>>, emphasis: Emphasis) -> Seq<
    (Range<usize>, Emphasis),
> {
    ranges.map_values(|range: Range<usize>| (range, emphasis))
}

/// The highlight of the selection, if there is one.
pub open spec fn selection_ranges(doc: DocumentView) -> Seq<Range<usize>> {
    match doc.selection {
        Some(range) => seq![byte_range(doc.text, range)],
        None => Seq::empty(),
    }
}

impl EditorModel {
    /// The projection of the document, from the cache if it is of the same revisions.
    pub open spec fn projection(self, doc: DocumentView, inline_revision: u64) -> ProjectionView {
        match self.cached_projection {
            Some((revision, inline, projection)) => if revision == doc.revision && inline
                == inline_revision {
                projection
            } else {
                source_projection(self.current_text(doc))
            },
            None => source_projection(self.current_text(doc)),
        }
    }

    /// The matches that are highlighted.
    pub open spec fn highlighted_matches(self, doc: DocumentView) -> Seq<Range<usize>> {
        if self.search_active && self.search_query.len() > 0 {
            self.found(doc)
        } else {
            Seq::empty()
        }
    }

    /// The editor after a frame.
    pub open spec fn framed(self, doc: DocumentView, inline_revision: u64) -> Self {
        let cached = EditorModel {
            cached_projection: Some(
                (doc.revision, inline_revision, self.projection(doc, inline_revision)),
            ),
            ..self.with_text(doc)
        };
        let searched = if self.search_active && self.search_query.len() > 0 {
            cached.with_search(self.current_text(doc), doc.revision)
        } else {
            cached
        };
        EditorModel {
            pending_outline_reveal_byte: None,
            pending_scroll_to_byte: if self.pending_outline_reveal_byte is Some {
                self.pending_scroll_to_byte
            } else {
                None
            },
            ..searched
        }
    }

    /// The target that is to be revealed, the one of the outline first.
    pub open spec fn next_reveal(self) -> Option<(usize, bool)> {
        match self.pending_outline_reveal_byte {
            Some(byte) => Some((byte, true)),
            None => match self.pending_scroll_to_byte {
                Some(byte) => Some((byte, false)),
                None => None,
            },
        }
    }
}

/// The number that the find panel shows for the current match.
pub open spec fn match_display(current: int, count: int) -> int {
    if count == 0 {
        0
    } else if current < count {
        current + 1
    } else {
        count
    }
}

fn emphasize(ranges: Vec<Range<usize>>, emphasis: Emphasis) -> (highlights: Vec<
    (Range<usize>, Emphasis),
>)
    ensures
        highlights@ == emphasized(ranges@, emphasis),
{
    let mut highlights: Vec<(Range<usize>, Emphasis)> = Vec::new();
    let ghost all = ranges@;
    for range in it: ranges
        invariant
            it.seq() == all,
            highlights@ == emphasized(all.take(it.index() as int), emphasis),
    {
        proof {
            let k = it.index() as int;
            assert(emphasized(all.take(k + 1), emphasis) =~= emphasized(
                all.take(k),
                emphasis,
            ).push((range, emphasis)));
        }
        highlights.push((range, emphasis));
    }
    assert(all.take(all.len() as int) =~= all);
    highlights
}

/// The highlight of the selection.
pub fn selection_highlights(doc: &DocumentState) -> (highlights: Vec<(Range<usize>, Emphasis)>)
    ensures
        highlights@ == emphasized(selection_ranges(doc@), Emphasis::Selection),
{
    let mut ranges: Vec<Range<usize>> = Vec::new();
    match doc.selection_bytes() {
        Some(range) => {
            ranges.push(range);
        },
        None => {},
    }
    assert(ranges@ =~= selection_ranges(doc@));
    emphasize(ranges, Emphasis::Selection)
}

impl EditorView {
    /// The projection of the document, which is made only when a revision has changed.
    fn current_projection(
        &mut self,
        doc: &DocumentState,
        text: &str,
        inline_revision: u64,
    ) -> (projection: DisplayProjection)
        requires
            old(self).wf(),
            text@ == old(self)@.current_text(doc@),
        ensures
            projection@ == old(self)@.projection(doc@, inline_revision),
            projection.wf(),
            final(self)@ == (EditorModel {
                cached_projection: Some((doc@.revision, inline_revision, projection@)),
                ..old(self)@
            }),
            final(self).wf(),
    {
        match &self.cached_projection {
            Some((cached_doc_revision, cached_inline_revision, cached)) => {
                if *cached_doc_revision == doc.revision && *cached_inline_revision
                    == inline_revision {
                    return cached.clone();
                }
            },
            None => {},
        }
        let projection = DisplayProjection::from_source(text);
        assert(projection@ =~= source_projection(text@));
        let copy = projection.clone();
        self.cached_projection = Some((doc.revision, inline_revision, projection));
        copy
    }

    /// Makes a frame of the document. Spans of another revision of the document are left out,
    /// so that stale byte ranges are never applied to the current source.
    pub fn frame<C: Copy>(
        &mut self,
        doc: &DocumentState,
        inline: &InlineMarkdownState,
        markdown_style: MarkdownStyle<C>,
        is_focused: bool,
    ) -> (frame: EditorFrame<C>)
        requires
            old(self).wf(),
        ensures
            ({
                let before = old(self)@;
                let matches = before.highlighted_matches(doc@);
                &&& frame.text@ == before.current_text(doc@)
                &&& frame.revision == doc@.revision
                &&& frame.projection@ == before.projection(doc@, inline.source_revision)
                &&& frame.projection.wf()
                &&& frame.cursor_display_byte == frame.projection.display_byte(
                    byte_of(doc@.text, doc@.cursor as int),
                )
                &&& frame.has_selection == doc@.selection is Some
                &&& frame.draw_caret == (doc@.selection is None && is_focused
                    && before.caret_visible)
                &&& frame.syntax_highlights@ == (if inline.source_revision == doc@.revision {
                    frame.projection.projected(colored(inline.spans@, markdown_style))
                } else {
                    Seq::empty()
                })
                &&& frame.search_highlights@ == frame.projection.projected(
                    emphasized(matches, Emphasis::SearchMatch),
                )
                &&& frame.selection_highlights@ == frame.projection.projected(
                    emphasized(selection_ranges(doc@), Emphasis::Selection),
                )
                &&& frame.search_match_count == matches.len()
                &&& frame.search_match_display == match_display(
                    before.search_current_match as int,
                    matches.len() as int,
                )
                &&& frame.pending_reveal == before.next_reveal()
                &&& frame.input_enabled == !before.search_active
                &&& final(self)@ == before.framed(doc@, inline.source_revision)
            }),
            final(self).wf(),
    {
        let (text, revision) = self.current_text_and_revision(doc);
        let cursor_source_byte = doc.char_to_byte(doc.cursor);
        let has_selection = doc.selection.is_some();
        let draw_caret = !has_selection && is_focused && self.caret_visible;
        let projection = self.current_projection(doc, text.as_str(), inline.source_revision);
        let cursor_display_byte = projection.source_to_display_byte(cursor_source_byte);
        let syntax_highlights = if inline.source_revision == revision {
            projection.project_highlights(inline_syntax_highlights(&inline.spans, markdown_style))
        } else {
            Vec::new()
        };
        let matches = self.search_highlights(text.as_str(), revision);
        let search_match_count = matches.len();
        let search_highlights = projection.project_highlights(
            emphasize(matches, Emphasis::SearchMatch),
        );
        let selection_highlights = projection.project_highlights(selection_highlights(doc));
        let pending_reveal = self.take_pending_reveal();
        let search_match_display = if search_match_count == 0 {
            0
        } else if self.search_current_match < search_match_count {
            self.search_current_match + 1
        } else {
            search_match_count
        };
        EditorFrame {
            text,
            revision,
            projection,
            cursor_display_byte,
            has_selection,
            draw_caret,
            syntax_highlights,
            search_highlights,
            selection_highlights,
            search_match_count,
            search_match_display,
            pending_reveal,
            input_enabled: !self.search_active,
        }
    }
}

/// The commands of the editor's context menu.
#[derive(Debug, Clone, Copy, PartialEq, Eq, Structural)]
pub enum MenuCommand {
    Cut,
    Copy,
    Paste,
    SelectAll,
}

impl MenuCommand {
    /// The name of the command in the menu.
    pub open spec fn label_spec(self) -> Seq<char> {
        match self {
            MenuCommand::Cut => "Cut"@,
            MenuCommand::Copy => "Copy"@,
            MenuCommand::Paste => "Paste"@,
            MenuCommand::SelectAll => "Select All"@,
        }
    }

    pub fn label(self) -> (label: &'static str)
        ensures
            label@ == self.label_spec(),
    {
        match self {
            MenuCommand::Cut => "Cut",
            MenuCommand::Copy => "Copy",
            MenuCommand::Paste => "Paste",
            MenuCommand::SelectAll => "Select All",
        }
    }

    /// Whether the command can be chosen. Without a selection there is nothing to cut or copy.
    pub fn is_enabled(self, has_selection: bool) -> (enabled: bool)
        ensures
            enabled == (has_selection || self == MenuCommand::Paste || self
                == MenuCommand::SelectAll),
    {
        match self {
            MenuCommand::Cut | MenuCommand::Copy => has_selection,
            MenuCommand::Paste | MenuCommand::SelectAll => true,
        }
    }
}

} // verus!
