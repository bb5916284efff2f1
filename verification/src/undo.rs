//! The history of committed edits, and what taking one back does to a text.
use std::ops::Range;
use vstd::prelude::*;

verus! {

/// One change that was made to a text, by character index.
#[derive(Debug)]
pub enum EditChange {
    Insert { at: usize, text: String },
    Delete { at: usize, text: String },
}

/// A change, over the characters of its text.
pub enum ChangeView {
    Insert { at: usize, text: Seq<char> },
    Delete { at: usize, text: Seq<char> },
}

impl View for EditChange {
    type V = ChangeView;

    open spec fn view(&self) -> ChangeView {
        match *self {
            EditChange::Insert { at, text } => ChangeView::Insert { at, text: text@ },
            EditChange::Delete { at, text } => ChangeView::Delete { at, text: text@ },
        }
    }
}

impl Clone for EditChange {
    fn clone(&self) -> (copy: Self)
        ensures
            copy@ == self@,
    {
        match self {
            EditChange::Insert { at, text } => EditChange::Insert { at: *at, text: text.clone() },
            EditChange::Delete { at, text } => EditChange::Delete { at: *at, text: text.clone() },
        }
    }
}

/// The changes of one edit, with the cursor and the selection before and after it.
#[derive(Debug)]
pub struct EditOperation {
    pub changes: Vec<EditChange>,
    pub old_cursor: usize,
    pub new_cursor: usize,
    pub old_selection: Option<Range<usize>>,
    pub new_selection: Option<Range<usize>>,
}

/// An edit, over the characters of its changes.
#[verifier::ext_equal]
pub struct OperationView {
    pub changes: Seq<ChangeView>,
    pub old_cursor: usize,
    pub new_cursor: usize,
    pub old_selection: Option<Range<usize>>,
    pub new_selection: Option<Range<usize>>,
}

/// The views of a list of changes.
pub open spec fn change_views(changes: Seq<EditChange>) -> Seq<ChangeView> {
    Seq::new(changes.len(), |i: int| changes[i]@)
}

impl View for EditOperation {
    type V = OperationView;

    open spec fn view(&self) -> OperationView {
        OperationView {
            changes: change_views(self.changes@),
            old_cursor: self.old_cursor,
            new_cursor: self.new_cursor,
            old_selection: self.old_selection,
            new_selection: self.new_selection,
        }
    }
}

/// A copy of an optional range.
pub fn copy_range(range: &Option<Range<usize>>) -> (copy: Option<Range<usize>>)
    ensures
        copy == *range,
{
    match range {
        Some(range) => Some(Range { start: range.start, end: range.end }),
        None => None,
    }
}

/// A copy of a list of changes.
pub fn copy_changes(changes: &Vec<EditChange>) -> (copy: Vec<EditChange>)
    ensures
        change_views(copy@) == change_views(changes@),
{
    let mut copy: Vec<EditChange> = Vec::new();
    let mut i: usize = 0;
    while i < changes.len()
        invariant
            i <= changes.len(),
            change_views(copy@) == change_views(changes@).take(i as int),
        decreases changes.len() - i,
    {
        let change = changes[i].clone();
        proof {
            assert(change_views(copy@.push(change)) =~= change_views(copy@).push(change@));
        }
        copy.push(change);
        i = i + 1;
    }
    copy
}

impl Clone for EditOperation {
    fn clone(&self) -> (copy: Self)
        ensures
            copy@ == self@,
    {
        EditOperation {
            changes: copy_changes(&self.changes),
            old_cursor: self.old_cursor,
            new_cursor: self.new_cursor,
            old_selection: copy_range(&self.old_selection),
            new_selection: copy_range(&self.new_selection),
        }
    }
}

/// The edits that can be undone and those that can be redone, the next one of each last.
#[derive(Debug)]
pub struct UndoHistory {
    undo_stack: Vec<EditOperation>,
    redo_stack: Vec<EditOperation>,
}

/// A history, over the views of its edits.
#[verifier::ext_equal]
pub struct HistoryView {
    pub undo: Seq<OperationView>,
    pub redo: Seq<OperationView>,
}

/// The views of a list of edits.
pub open spec fn operation_views(operations: Seq<EditOperation>) -> Seq<OperationView> {
    Seq::new(operations.len(), |i: int| operations[i]@)
}

/// A copy of a list of edits.
fn copy_operations(operations: &Vec<EditOperation>) -> (copy: Vec<EditOperation>)
    ensures
        operation_views(copy@) == operation_views(operations@),
{
    let mut copy: Vec<EditOperation> = Vec::new();
    let mut i: usize = 0;
    while i < operations.len()
        invariant
            i <= operations.len(),
            operation_views(copy@) == operation_views(operations@).take(i as int),
        decreases operations.len() - i,
    {
        let operation = operations[i].clone();
        proof {
            assert(operation_views(copy@.push(operation)) =~= operation_views(copy@).push(
                operation@,
            ));
        }
        copy.push(operation);
        i = i + 1;
    }
    copy
}

impl View for UndoHistory {
    type V = HistoryView;

    closed spec fn view(&self) -> HistoryView {
        HistoryView {
            undo: operation_views(self.undo_stack@),
            redo: operation_views(self.redo_stack@),
        }
    }
}

impl Clone for UndoHistory {
    fn clone(&self) -> (copy: Self)
        ensures
            copy@ == self@,
    {
        UndoHistory {
            undo_stack: copy_operations(&self.undo_stack),
            redo_stack: copy_operations(&self.redo_stack),
        }
    }
}

/// The history without edits.
pub open spec fn no_history() -> HistoryView {
    HistoryView { undo: Seq::empty(), redo: Seq::empty() }
}

impl Default for UndoHistory {
    fn default() -> (history: Self)
        ensures
            history@ == no_history(),
    {
        let history = UndoHistory { undo_stack: Vec::new(), redo_stack: Vec::new() };
        assert(history@ =~= no_history());
        history
    }
}

impl UndoHistory {
    /// Records a new edit, behind which nothing can be redone.
    pub fn push(&mut self, operation: EditOperation)
        ensures
            final(self)@ == (HistoryView {
                undo: old(self)@.undo.push(operation@),
                redo: Seq::empty(),
            }),
    {
        let ghost before = *self;
        self.undo_stack.push(operation);
        self.redo_stack.clear();
        assert(self@.undo =~= before@.undo.push(operation@));
        assert(self@.redo =~= Seq::<OperationView>::empty());
    }

    /// Moves the last edit over to those that can be redone, and returns it.
    pub fn undo(&mut self) -> (operation: Option<EditOperation>)
        ensures
            old(self)@.undo.len() == 0 ==> operation is None && final(self)@ == old(self)@,
            old(self)@.undo.len() > 0 ==> {
                &&& operation matches Some(op)
                &&& op@ == old(self)@.undo.last()
                &&& final(self)@ == (HistoryView {
                    undo: old(self)@.undo.drop_last(),
                    redo: old(self)@.redo.push(old(self)@.undo.last()),
                })
            },
    {
        let ghost before = *self;
        match self.undo_stack.pop() {
            Some(operation) => {
                self.redo_stack.push(operation.clone());
                assert(self@.undo =~= before@.undo.drop_last());
                assert(self@.redo =~= before@.redo.push(before@.undo.last()));
                Some(operation)
            },
            None => None,
        }
    }

    /// Moves the last undone edit back, and returns it.
    pub fn redo(&mut self) -> (operation: Option<EditOperation>)
        ensures
            old(self)@.redo.len() == 0 ==> operation is None && final(self)@ == old(self)@,
            old(self)@.redo.len() > 0 ==> {
                &&& operation matches Some(op)
                &&& op@ == old(self)@.redo.last()
                &&& final(self)@ == (HistoryView {
                    undo: old(self)@.undo.push(old(self)@.redo.last()),
                    redo: old(self)@.redo.drop_last(),
                })
            },
    {
        let ghost before = *self;
        match self.redo_stack.pop() {
            Some(operation) => {
                self.undo_stack.push(operation.clone());
                assert(self@.redo =~= before@.redo.drop_last());
                assert(self@.undo =~= before@.undo.push(before@.redo.last()));
                Some(operation)
            },
            None => None,
        }
    }

    /// Forgets every edit.
    pub fn clear(&mut self)
        ensures
            final(self)@ == no_history(),
    {
        self.undo_stack.clear();
        self.redo_stack.clear();
        assert(self@ =~= no_history());
    }

    /// Whether there is an edit to undo.
    pub fn can_undo(&self) -> (can: bool)
        ensures
            can == (self@.undo.len() > 0),
    {
        !self.undo_stack.is_empty()
    }

    /// Whether there is an edit to redo.
    pub fn can_redo(&self) -> (can: bool)
        ensures
            can == (self@.redo.len() > 0),
    {
        !self.redo_stack.is_empty()
    }
}

/// A text with characters put in before the one with the given index.
pub open spec fn spliced(text: Seq<char>, at: int, inserted: Seq<char>) -> Seq<char> {
    text.take(at) + inserted + text.skip(at)
}

/// A text with a range of characters taken out.
pub open spec fn cut(text: Seq<char>, start: int, end: int) -> Seq<char> {
    text.take(start) + text.skip(end)
}

/// The sum that `saturating_add` gives.
pub open spec fn capped(sum: int) -> usize {
    if sum <= usize::MAX {
        sum as usize
    } else {
        usize::MAX
    }
}

/// The smaller of an index and a length.
pub open spec fn clamped(index: int, len: int) -> int {
    if index <= len {
        index
    } else {
        len
    }
}

/// The text with inserted characters put in, as far as it reaches.
pub open spec fn put_in(text: Seq<char>, at: usize, inserted: Seq<char>) -> Seq<char> {
    spliced(text, clamped(at as int, text.len() as int), inserted)
}

/// The text with as many characters taken out, where it reaches that far.
pub open spec fn take_out(text: Seq<char>, at: usize, removed: Seq<char>) -> Seq<char> {
    let end = capped(at + removed.len());
    if at < end && end <= text.len() {
        cut(text, at as int, end as int)
    } else {
        text
    }
}

/// A text after one change is taken back.
pub open spec fn undo_change(text: Seq<char>, change: ChangeView) -> Seq<char> {
    match change {
        ChangeView::Insert { at, text: inserted } => take_out(text, at, inserted),
        ChangeView::Delete { at, text: removed } => put_in(text, at, removed),
    }
}

/// A text after one change is made again.
pub open spec fn redo_change(text: Seq<char>, change: ChangeView) -> Seq<char> {
    match change {
        ChangeView::Insert { at, text: inserted } => put_in(text, at, inserted),
        ChangeView::Delete { at, text: removed } => take_out(text, at, removed),
    }
}

/// A text after changes are taken back, the last one first.
pub open spec fn undo_changes(text: Seq<char>, changes: Seq<ChangeView>) -> Seq<char>
    decreases changes.len(),
{
    if changes.len() == 0 {
        text
    } else {
        undo_changes(undo_change(text, changes.last()), changes.drop_last())
    }
}

/// A text after changes are made again, the first one first.
pub open spec fn redo_changes(text: Seq<char>, changes: Seq<ChangeView>) -> Seq<char>
    decreases changes.len(),
{
    if changes.len() == 0 {
        text
    } else {
        redo_change(redo_changes(text, changes.drop_last()), changes.last())
    }
}

/// The text could be the outcome of the change: it is held in memory before and after, and
/// holds what was inserted where it was inserted.
pub open spec fn change_led_to(text: Seq<char>, change: ChangeView) -> bool {
    &&& text.len() <= usize::MAX
    &&& undo_change(text, change).len() <= usize::MAX
    &&& match change {
        ChangeView::Insert { at, text: inserted } => {
            &&& at + inserted.len() <= text.len()
            &&& text.subrange(at as int, at + inserted.len()) == inserted
        },
        ChangeView::Delete { at, .. } => at <= text.len(),
    }
}

/// The text could be the outcome of the changes, one after the other.
pub open spec fn changes_led_to(text: Seq<char>, changes: Seq<ChangeView>) -> bool
    decreases changes.len(),
{
    changes.len() > 0 ==> {
        &&& change_led_to(text, changes.last())
        &&& changes_led_to(undo_change(text, changes.last()), changes.drop_last())
    }
}

/// Taking a change back and making it again leaves the text as it was.
pub proof fn redo_change_undoes_undo_change(text: Seq<char>, change: ChangeView)
    requires
        change_led_to(text, change),
    ensures
        redo_change(undo_change(text, change), change) == text,
{
    match change {
        ChangeView::Insert { at, text: inserted } => {
            let base = undo_change(text, change);
            if inserted.len() == 0 {
                assert(put_in(base, at, inserted) =~= text);
            } else {
                assert(base.len() == text.len() - inserted.len());
                assert(text =~= text.take(at as int) + inserted + text.skip(at + inserted.len()));
                assert(base.take(at as int) =~= text.take(at as int));
                assert(base.skip(at as int) =~= text.skip(at + inserted.len()));
            }
        },
        ChangeView::Delete { at, text: removed } => {
            let base = undo_change(text, change);
            if removed.len() == 0 {
                assert(base =~= text);
            } else {
                assert(base.len() == text.len() + removed.len());
                assert(base.take(at as int) =~= text.take(at as int));
                assert(base.skip(at + removed.len()) =~= text.skip(at as int));
                assert(text.take(at as int) + text.skip(at as int) =~= text);
            }
        },
    }
}

/// Undoing the changes that led to a text and redoing them gives the text back.
pub proof fn redo_inverts_undo(text: Seq<char>, changes: Seq<ChangeView>)
    requires
        changes_led_to(text, changes),
    ensures
        redo_changes(undo_changes(text, changes), changes) == text,
    decreases changes.len(),
{
    if changes.len() > 0 {
        let before = undo_change(text, changes.last());
        redo_inverts_undo(before, changes.drop_last());
        redo_change_undoes_undo_change(text, changes.last());
    }
}

} // verus!
