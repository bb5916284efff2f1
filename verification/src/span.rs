//! The range of a text that changes replaced.
use crate::undo::{capped, clamped, cut, put_in, redo_change, redo_changes, spliced, take_out};
use crate::undo::{undo_change, undo_changes, ChangeView};
use vstd::prelude::*;

verus! {

/// A range of characters of a text, and how far what is there now reaches.
#[derive(Debug, Clone, Copy)]
pub struct Span {
    pub start: usize,
    pub old_end: usize,
    pub new_end: usize,
}

/// A span, over mathematical integers.
pub struct SpanView {
    pub start: int,
    pub old_end: int,
    pub new_end: int,
}

impl View for Span {
    type V = SpanView;

    open spec fn view(&self) -> SpanView {
        SpanView {
            start: self.start as int,
            old_end: self.old_end as int,
            new_end: self.new_end as int,
        }
    }
}

/// The view of an optional span.
pub open spec fn span_view(span: Option<Span>) -> Option<SpanView> {
    match span {
        Some(span) => Some(span@),
        None => None,
    }
}

/// The texts differ in the span only. Without one they are the same.
pub open spec fn frames(before: Seq<char>, after: Seq<char>, span: Option<SpanView>) -> bool {
    match span {
        Some(span) => {
            &&& 0 <= span.start <= span.old_end <= before.len()
            &&& span.start <= span.new_end <= after.len()
            &&& before.take(span.start) == after.take(span.start)
            &&& before.skip(span.old_end) == after.skip(span.new_end)
        },
        None => before == after,
    }
}

/// The span of two changes, one after the other.
pub open spec fn merged(first: Option<SpanView>, second: Option<SpanView>) -> Option<SpanView> {
    match (first, second) {
        (Some(a), Some(b)) => Some(
            SpanView {
                start: if a.start <= b.start {
                    a.start
                } else {
                    b.start
                },
                old_end: a.old_end + if b.old_end > a.new_end {
                    b.old_end - a.new_end
                } else {
                    0
                },
                new_end: b.new_end + if a.new_end > b.old_end {
                    a.new_end - b.old_end
                } else {
                    0
                },
            },
        ),
        (Some(a), None) => Some(a),
        (None, b) => b,
    }
}

/// The span of characters that are put in.
pub open spec fn put_in_span(text: Seq<char>, at: usize, inserted: Seq<char>) -> Option<SpanView> {
    let start = clamped(at as int, text.len() as int);
    Some(SpanView { start, old_end: start, new_end: start + inserted.len() })
}

/// The span of characters that are taken out, if they are.
pub open spec fn take_out_span(text: Seq<char>, at: usize, removed: Seq<char>) -> Option<
    SpanView,
> {
    let end = capped(at + removed.len());
    if at < end && end <= text.len() {
        Some(SpanView { start: at as int, old_end: end as int, new_end: at as int })
    } else {
        None
    }
}

/// The span of a change that is taken back.
pub open spec fn undo_span(text: Seq<char>, change: ChangeView) -> Option<SpanView> {
    match change {
        ChangeView::Insert { at, text: inserted } => take_out_span(text, at, inserted),
        ChangeView::Delete { at, text: removed } => put_in_span(text, at, removed),
    }
}

/// The span of a change that is made again.
pub open spec fn redo_span(text: Seq<char>, change: ChangeView) -> Option<SpanView> {
    match change {
        ChangeView::Insert { at, text: inserted } => put_in_span(text, at, inserted),
        ChangeView::Delete { at, text: removed } => take_out_span(text, at, removed),
    }
}

/// The span of changes that are taken back, the last one first, behind that of what has been
/// taken back so far.
pub open spec fn undo_spans(
    text: Seq<char>,
    changes: Seq<ChangeView>,
    so_far: Option<SpanView>,
) -> Option<SpanView>
    decreases changes.len(),
{
    if changes.len() == 0 {
        so_far
    } else {
        undo_spans(
            undo_change(text, changes.last()),
            changes.drop_last(),
            merged(so_far, undo_span(text, changes.last())),
        )
    }
}

/// The span of changes that are made again, the first one first.
pub open spec fn redo_spans(text: Seq<char>, changes: Seq<ChangeView>) -> Option<SpanView>
    decreases changes.len(),
{
    if changes.len() == 0 {
        None
    } else {
        merged(
            redo_spans(text, changes.drop_last()),
            redo_span(redo_changes(text, changes.drop_last()), changes.last()),
        )
    }
}

/// What is put in lies in its span.
pub proof fn put_in_is_framed(text: Seq<char>, at: usize, inserted: Seq<char>)
    ensures
        frames(text, put_in(text, at, inserted), put_in_span(text, at, inserted)),
{
    let start = clamped(at as int, text.len() as int);
    let after = spliced(text, start, inserted);
    assert(after.take(start) =~= text.take(start));
    assert(after.skip(start + inserted.len()) =~= text.skip(start));
}

/// What is taken out lies in its span.
pub proof fn take_out_is_framed(text: Seq<char>, at: usize, removed: Seq<char>)
    ensures
        frames(text, take_out(text, at, removed), take_out_span(text, at, removed)),
{
    let end = capped(at + removed.len());
    if at < end && end <= text.len() {
        let after = cut(text, at as int, end as int);
        assert(after.take(at as int) =~= text.take(at as int));
        assert(after.skip(at as int) =~= text.skip(end as int));
    }
}

/// A change that is taken back or made again lies in its span.
pub proof fn change_is_framed(text: Seq<char>, change: ChangeView)
    ensures
        frames(text, undo_change(text, change), undo_span(text, change)),
        frames(text, redo_change(text, change), redo_span(text, change)),
{
    match change {
        ChangeView::Insert { at, text: inserted } => {
            take_out_is_framed(text, at, inserted);
            put_in_is_framed(text, at, inserted);
        },
        ChangeView::Delete { at, text: removed } => {
            take_out_is_framed(text, at, removed);
            put_in_is_framed(text, at, removed);
        },
    }
}

/// Two changes lie in their merged span.
pub proof fn merged_span_frames(
    first: Seq<char>,
    second: Seq<char>,
    third: Seq<char>,
    a: Option<SpanView>,
    b: Option<SpanView>,
)
    requires
        frames(first, second, a),
        frames(second, third, b),
    ensures
        frames(first, third, merged(a, b)),
{
    if a is Some && b is Some {
        let x = a->0;
        let y = b->0;
        let m = merged(a, b)->0;
        assert(first.skip(x.old_end).len() == second.skip(x.new_end).len());
        assert(second.skip(y.old_end).len() == third.skip(y.new_end).len());
        assert forall|i: int| 0 <= i < m.start implies first[i] == third[i] by {
            assert(first.take(x.start)[i] == second.take(x.start)[i]);
            assert(second.take(y.start)[i] == third.take(y.start)[i]);
        }
        assert(first.take(m.start) =~= third.take(m.start));
        assert forall|i: int| 0 <= i < first.len() - m.old_end implies #[trigger] first.skip(
            m.old_end,
        )[i] == third.skip(m.new_end)[i] by {
            let j = m.old_end + i - x.old_end;
            let k = x.new_end + j - y.old_end;
            assert(first.skip(x.old_end)[j] == second.skip(x.new_end)[j]);
            assert(second.skip(y.old_end)[k] == third.skip(y.new_end)[k]);
        }
        assert(first.skip(m.old_end) =~= third.skip(m.new_end));
    }
}

/// Changes that are taken back lie in their span.
pub proof fn undone_changes_are_framed(
    start: Seq<char>,
    text: Seq<char>,
    changes: Seq<ChangeView>,
    so_far: Option<SpanView>,
)
    requires
        frames(start, text, so_far),
    ensures
        frames(start, undo_changes(text, changes), undo_spans(text, changes, so_far)),
    decreases changes.len(),
{
    if changes.len() > 0 {
        let change = changes.last();
        let next = undo_change(text, change);
        change_is_framed(text, change);
        merged_span_frames(start, text, next, so_far, undo_span(text, change));
        undone_changes_are_framed(
            start,
            next,
            changes.drop_last(),
            merged(so_far, undo_span(text, change)),
        );
    }
}

/// Changes that are made again lie in their span.
pub proof fn redone_changes_are_framed(text: Seq<char>, changes: Seq<ChangeView>)
    ensures
        frames(text, redo_changes(text, changes), redo_spans(text, changes)),
    decreases changes.len(),
{
    if changes.len() > 0 {
        let change = changes.last();
        let before = redo_changes(text, changes.drop_last());
        redone_changes_are_framed(text, changes.drop_last());
        change_is_framed(before, change);
        merged_span_frames(
            text,
            before,
            redo_change(before, change),
            redo_spans(text, changes.drop_last()),
            redo_span(before, change),
        );
    }
}

/// The span of two changes, one after the other.
pub(crate) fn merge(first: Option<Span>, second: Option<Span>) -> (whole: Option<Span>)
    requires
        merged(span_view(first), span_view(second)) matches Some(span) ==> span.old_end
            <= usize::MAX && span.new_end <= usize::MAX,
    ensures
        span_view(whole) == merged(span_view(first), span_view(second)),
{
    match (first, second) {
        (Some(a), Some(b)) => Some(
            Span {
                start: if a.start <= b.start {
                    a.start
                } else {
                    b.start
                },
                old_end: a.old_end + if b.old_end > a.new_end {
                    b.old_end - a.new_end
                } else {
                    0
                },
                new_end: b.new_end + if a.new_end > b.old_end {
                    a.new_end - b.old_end
                } else {
                    0
                },
            },
        ),
        (Some(a), None) => Some(a),
        (None, b) => b,
    }
}

} // verus!
