//! The parts of Markdown source that are colored, and their colors.
use crate::system_colors::ThemeColor;
use crate::theme::MarkdownStyle;
use std::ops::Range;
use vstd::prelude::*;

verus! {

/// What a piece of Markdown source is.
#[derive(Debug, Clone, Copy, PartialEq, Eq, Structural)]
pub enum SyntaxKind {
    HeadingMarker,
    HeadingText,
    QuoteMarker,
    ListMarker,
    TaskMarker,
    CodeFence,
    InlineCodeMarker,
    InlineCode,
    LinkTextDelimiter,
    LinkUrlDelimiter,
    LinkText,
    LinkUrl,
    EmphasisMarker,
    EmphasisText,
    StrongText,
}

/// A byte range of the source with what it is.
#[derive(Debug)]
pub struct SyntaxSpan {
    pub range: Range<usize>,
    pub kind: SyntaxKind,
}

/// The color of a kind of source: markers are muted, link texts have the color of links, and
/// emphasized text has none of its own.
pub open spec fn syntax_color<C>(kind: SyntaxKind, style: MarkdownStyle<C>) -> Option<
    ThemeColor<C>,
> {
    match kind {
        SyntaxKind::HeadingText
        | SyntaxKind::ListMarker
        | SyntaxKind::TaskMarker
        | SyntaxKind::InlineCodeMarker
        | SyntaxKind::InlineCode => Some(ThemeColor::Palette(style.foreground)),
        SyntaxKind::LinkText => Some(style.link),
        SyntaxKind::EmphasisText | SyntaxKind::StrongText => None,
        _ => Some(ThemeColor::Palette(style.muted_foreground)),
    }
}

/// Returns source-code syntax colors without applying Markdown rich-text rendering.
pub fn syntax_style<C: Copy>(kind: SyntaxKind, markdown_style: MarkdownStyle<C>) -> (color: Option<
    ThemeColor<C>,
>)
    ensures
        color == syntax_color(kind, markdown_style),
{
    match kind {
        SyntaxKind::HeadingMarker => Some(ThemeColor::Palette(markdown_style.muted_foreground)),
        SyntaxKind::HeadingText => Some(ThemeColor::Palette(markdown_style.foreground)),
        SyntaxKind::QuoteMarker => Some(ThemeColor::Palette(markdown_style.muted_foreground)),
        SyntaxKind::ListMarker | SyntaxKind::TaskMarker => Some(
            ThemeColor::Palette(markdown_style.foreground),
        ),
        SyntaxKind::CodeFence => Some(ThemeColor::Palette(markdown_style.muted_foreground)),
        SyntaxKind::InlineCodeMarker | SyntaxKind::InlineCode => Some(
            ThemeColor::Palette(markdown_style.foreground),
        ),
        SyntaxKind::LinkTextDelimiter | SyntaxKind::LinkUrlDelimiter => Some(
            ThemeColor::Palette(markdown_style.muted_foreground),
        ),
        SyntaxKind::LinkText => Some(markdown_style.link),
        SyntaxKind::LinkUrl => Some(ThemeColor::Palette(markdown_style.muted_foreground)),
        SyntaxKind::EmphasisMarker => Some(ThemeColor::Palette(markdown_style.muted_foreground)),
        SyntaxKind::EmphasisText | SyntaxKind::StrongText => None,
    }
}

/// The spans with the color of each.
pub open spec fn colored<C>(spans: Seq<SyntaxSpan>, style: MarkdownStyle<C>) -> Seq<
    (Range<usize>, Option<ThemeColor<C>>),
> {
    spans.map_values(|span: SyntaxSpan| (span.range, syntax_color(span.kind, style)))
}

/// The highlights that the spans of a source are.
pub fn inline_syntax_highlights<C: Copy>(
    spans: &Vec<SyntaxSpan>,
    markdown_style: MarkdownStyle<C>,
) -> (highlights: Vec<(Range<usize>, Option<ThemeColor<C>>)>)
    ensures
        highlights@ == colored(spans@, markdown_style),
{
    let mut highlights: Vec<(Range<usize>, Option<ThemeColor<C>>)> = Vec::new();
    let mut i: usize = 0;
    while i < spans.len()
        invariant
            i <= spans@.len(),
            highlights@ == colored(spans@.take(i as int), markdown_style),
        decreases spans@.len() - i,
    {
        let span = &spans[i];
        highlights.push((span.range.start..span.range.end, syntax_style(span.kind, markdown_style)));
        i = i + 1;
        assert(highlights@ =~= colored(spans@.take(i as int), markdown_style));
    }
    assert(spans@.take(i as int) =~= spans@);
    highlights
}

} // verus!
