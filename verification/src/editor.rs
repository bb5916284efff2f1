//! The editor: text input, the find panel, and what is shown of the document.
use crate::commands;
use crate::document::{byte_of, char_of, DocumentState, DocumentView};
use crate::projection::{DisplayProjection, ProjectionSegment, ProjectionView};
use crate::search::{all_matches, find_all_matches_case_insensitive};
use crate::text::{blank, has_char, is_blank, same_text};
use crate::undo::{capped, clamped, copy_range};
use crate::utf16::{
    char_index_to_utf16, char_range_to_utf16, utf16_offset_to_char_in_str, utf16_range_to_chars,
};
use crate::utf16::{chars_at_utf16, utf16_of, utf16_range};
use std::ops::Range;
use vstd::prelude::*;
use vstd::string::*;
use vstd::utf8::encode_utf8;

verus! {

/// The largest document whose caret blinks.
pub const HEAVY_DOCUMENT_BYTES: usize = 65536;

/// The matches of a query in a revision of the document.
#[derive(Debug)]
pub struct SearchCache {
    pub revision: u64,
    pub query: String,
    pub matches: Vec<Range<usize>>,
}

/// A search, over the characters of its query.
#[verifier::ext_equal]
pub struct SearchView {
    pub revision: u64,
    pub query: Seq<char>,
    pub matches: Seq<Range<usize>>,
}

impl View for SearchCache {
    type V = SearchView;

    open spec fn view(&self) -> SearchView {
        SearchView { revision: self.revision, query: self.query@, matches: self.matches@ }
    }
}

/// What the editor keeps besides the document.
pub struct EditorView {
    pub caret_visible: bool,
    /// Cached text with revision to avoid repeated rope-to-string conversions.
    pub cached_text: Option<(u64, String)>,
    /// Cached source/display projection for the current document + inline parse revisions.
    pub cached_projection: Option<(u64, u64, DisplayProjection)>,
    /// Character range currently owned by the platform IME composition.
    pub marked_range: Option<Range<usize>>,
    /// Keeps the full IME composition as one undo transaction.
    pub ime_edit_active: bool,
    /// Find panel state.
    pub search_active: bool,
    pub search_query: String,
    pub search_current_match: usize,
    pub cached_search: Option<SearchCache>,
    /// Byte offset that should be revealed after next layout.
    pub pending_scroll_to_byte: Option<usize>,
    /// Outline target that should be aligned near the top after layout.
    pub pending_outline_reveal_byte: Option<usize>,
}

/// The editor, over the characters of its texts.
#[verifier::ext_equal]
pub struct EditorModel {
    pub caret_visible: bool,
    pub cached_text: Option<(u64, Seq<char>)>,
    pub cached_projection: Option<(u64, u64, ProjectionView)>,
    pub marked_range: Option<Range<usize>>,
    pub ime_edit_active: bool,
    pub search_active: bool,
    pub search_query: Seq<char>,
    pub search_current_match: usize,
    pub cached_search: Option<SearchView>,
    pub pending_scroll_to_byte: Option<usize>,
    pub pending_outline_reveal_byte: Option<usize>,
}

impl View for EditorView {
    type V = EditorModel;

    open spec fn view(&self) -> EditorModel {
        EditorModel {
            caret_visible: self.caret_visible,
            cached_text: match self.cached_text {
                Some((revision, text)) => Some((revision, text@)),
                None => None,
            },
            cached_projection: match self.cached_projection {
                Some((revision, inline, projection)) => Some((revision, inline, projection@)),
                None => None,
            },
            marked_range: self.marked_range,
            ime_edit_active: self.ime_edit_active,
            search_active: self.search_active,
            search_query: self.search_query@,
            search_current_match: self.search_current_match,
            cached_search: match self.cached_search {
                Some(search) => Some(search@),
                None => None,
            },
            pending_scroll_to_byte: self.pending_scroll_to_byte,
            pending_outline_reveal_byte: self.pending_outline_reveal_byte,
        }
    }
}

/// The projection that displays a source as it is.
pub open spec fn source_projection(source: Seq<char>) -> ProjectionView {
    ProjectionView {
        text: source,
        source_len: encode_utf8(source).len() as usize,
        segments: seq![
            ProjectionSegment {
                source: Range { start: 0, end: encode_utf8(source).len() as usize },
                display_start: 0,
                hidden: false,
            },
        ],
    }
}

/// The editor of a document that has just been opened.
pub open spec fn new_editor() -> EditorModel {
    EditorModel {
        caret_visible: true,
        cached_text: None,
        cached_projection: None,
        marked_range: None,
        ime_edit_active: false,
        search_active: false,
        search_query: Seq::empty(),
        search_current_match: 0,
        cached_search: None,
        pending_scroll_to_byte: None,
        pending_outline_reveal_byte: None,
    }
}

impl EditorModel {
    /// The text of the document, from the cache if it is of the document's revision.
    pub open spec fn current_text(self, doc: DocumentView) -> Seq<char> {
        match self.cached_text {
            Some((revision, text)) => if revision == doc.revision {
                text
            } else {
                doc.text
            },
            None => doc.text,
        }
    }

    /// The editor with the text of the document cached.
    pub open spec fn with_text(self, doc: DocumentView) -> Self {
        EditorModel { cached_text: Some((doc.revision, self.current_text(doc))), ..self }
    }

    /// The matches of the query, from the cache if they are of the same revision and query.
    pub open spec fn matches(self, text: Seq<char>, revision: u64) -> Seq<Range<usize>> {
        match self.cached_search {
            Some(search) => if search.revision == revision && search.query == self.search_query {
                search.matches
            } else {
                all_matches(text, self.search_query)
            },
            None => all_matches(text, self.search_query),
        }
    }

    /// The editor with the matches of the query cached.
    pub open spec fn with_search(self, text: Seq<char>, revision: u64) -> Self {
        EditorModel {
            cached_search: Some(
                SearchView {
                    revision,
                    query: self.search_query,
                    matches: self.matches(text, revision),
                },
            ),
            ..self
        }
    }

    /// The editor with text and matches of the document cached.
    pub open spec fn searched(self, doc: DocumentView) -> Self {
        self.with_text(doc).with_search(self.current_text(doc), doc.revision)
    }

    /// The matches of the query in the document.
    pub open spec fn found(self, doc: DocumentView) -> Seq<Range<usize>> {
        self.matches(self.current_text(doc), doc.revision)
    }

    /// The number of the match that is selected: the current one, or the first where there
    /// are not that many.
    pub open spec fn match_number(self, count: int) -> int {
        if self.search_current_match >= count {
            0
        } else {
            self.search_current_match as int
        }
    }

    /// The editor and the document with the current match selected.
    pub open spec fn select_match(self, doc: DocumentView) -> (EditorModel, DocumentView) {
        let found = self.found(doc);
        if self.search_query.len() == 0 {
            (self, doc)
        } else if found.len() == 0 {
            (self.searched(doc), doc)
        } else {
            let number = self.match_number(found.len() as int);
            let range = found[number];
            (
                EditorModel {
                    search_current_match: number as usize,
                    pending_scroll_to_byte: Some(range.start),
                    ..self.searched(doc)
                },
                doc.set_selection(
                    char_of(doc.text, range.start as int),
                    char_of(doc.text, range.end as int),
                ),
            )
        }
    }

    /// The number of the match behind or before the current one; the last and the first are
    /// neighbors.
    pub open spec fn next_match(self, count: int, forward: bool) -> int {
        if forward {
            (self.search_current_match + 1) % count
        } else if self.search_current_match == 0 {
            count - 1
        } else {
            self.search_current_match - 1
        }
    }

    /// The editor and the document with the next or the previous match selected.
    pub open spec fn jump(self, doc: DocumentView, forward: bool) -> (EditorModel, DocumentView) {
        let count = self.found(doc).len() as int;
        if self.search_query.len() == 0 {
            (self, doc)
        } else if count == 0 {
            (self.searched(doc), doc)
        } else {
            EditorModel {
                search_current_match: self.next_match(count, forward) as usize,
                ..self.searched(doc)
            }.select_match(doc)
        }
    }

    /// The find panel can open: a selection that it would take its query from lies in the text.
    pub open spec fn can_seed(self, doc: DocumentView) -> bool {
        self.search_query.len() == 0 ==> doc.selection_lies_inside()
    }

    /// The query that the find panel opens with: the last one, or what is selected in a single
    /// line that is not blank.
    pub open spec fn seeded_query(self, doc: DocumentView) -> Seq<char> {
        match doc.selected() {
            Some(seed) => if self.search_query.len() == 0 && !is_blank(seed) && !seed.contains(
                '\n',
            ) {
                seed
            } else {
                self.search_query
            },
            None => self.search_query,
        }
    }

    /// The editor with another query, which is searched from its first match on.
    pub open spec fn with_query(self, query: Seq<char>) -> Self {
        EditorModel {
            search_query: query,
            search_current_match: 0,
            cached_search: None,
            ..self
        }
    }

    /// The editor and the document with the find panel open.
    pub open spec fn activate(self, doc: DocumentView) -> (EditorModel, DocumentView) {
        EditorModel { search_active: true, ..self }.with_query(
            self.seeded_query(doc),
        ).select_match(doc)
    }

    /// The editor with the find panel closed.
    pub open spec fn close(self) -> Self {
        EditorModel { search_active: false, ..self }
    }

    /// The characters that platform input replaces: those it names, or those of its
    /// composition, or what is selected, or none at the cursor.
    pub open spec fn target(self, doc: DocumentView, range_utf16: Option<Range<usize>>) -> Range<
        usize,
    > {
        match range_utf16 {
            Some(range) => chars_at_utf16(doc.text, range),
            None => match self.marked_range {
                Some(range) => range,
                None => match doc.selection {
                    Some(range) => range,
                    None => Range { start: doc.cursor, end: doc.cursor },
                },
            },
        }
    }

    /// The editor outside of a composition.
    pub open spec fn uncomposed(self) -> Self {
        EditorModel { ime_edit_active: false, marked_range: None, ..self }
    }
}

/// The start of a target, in the text.
pub open spec fn target_start(target: Range<usize>, len: int) -> int {
    clamped(target.start as int, len)
}

/// The end of a target, in the text and not before its start.
pub open spec fn target_end(target: Range<usize>, len: int) -> int {
    let start = target_start(target, len);
    let end = clamped(target.end as int, len);
    if end < start {
        start
    } else {
        end
    }
}

/// The selection in a composition, in characters of the new text: as it is given, or behind
/// the text.
pub open spec fn composed_selection(
    text: Seq<char>,
    selected_utf16: Option<Range<usize>>,
) -> Range<usize> {
    match selected_utf16 {
        Some(range) => chars_at_utf16(text, range),
        None => Range { start: text.len() as usize, end: text.len() as usize },
    }
}

impl DocumentView {
    /// The document with the characters of a target replaced, in a new edit or in the one that
    /// is open.
    pub open spec fn replace(self, begin: bool, target: Range<usize>, text: Seq<char>) -> Self {
        let begun = if begin {
            self.begin_edit()
        } else {
            self
        };
        let start = target_start(target, self.len());
        let end = target_end(target, self.len());
        let removed = if start < end {
            begun.delete_range(start, end)
        } else {
            begun
        };
        if text.len() > 0 {
            removed.insert(start, text)
        } else {
            removed
        }
    }

    /// The document with the given part of a text that starts at `start` selected.
    pub open spec fn select_in(self, start: int, count: int, part: Range<usize>) -> Self {
        let first = clamped(capped(start + clamped(part.start as int, count)) as int, self.len());
        let last = clamped(capped(start + clamped(part.end as int, count)) as int, self.len());
        if first == last {
            self.set_cursor(last)
        } else {
            self.set_selection(first, last)
        }
    }

    /// The document with text put in by the platform, as one edit with the composition before
    /// it.
    pub open spec fn input(self, composing: bool, target: Range<usize>, text: Seq<char>) -> Self {
        self.replace(!composing, target, text).set_cursor(
            capped(target_start(target, self.len()) + text.len()) as int,
        ).commit_edit()
    }

    /// The document with a step of a composition in it. The edit stays open.
    pub open spec fn compose(
        self,
        composing: bool,
        target: Range<usize>,
        text: Seq<char>,
        selected_utf16: Option<Range<usize>>,
    ) -> Self {
        self.replace(!composing, target, text).select_in(
            target_start(target, self.len()),
            text.len() as int,
            composed_selection(text, selected_utf16),
        )
    }
}

/// The selection as platform input sees it.
#[derive(Debug, PartialEq, Eq)]
pub struct Utf16Selection {
    pub range: Range<usize>,
    /// The cursor is at the start.
    pub reversed: bool,
}

/// Copies a list of ranges.
fn copy_ranges(ranges: &Vec<Range<usize>>) -> (copy: Vec<Range<usize>>)
    ensures
        copy@ == ranges@,
{
    let mut copy: Vec<Range<usize>> = Vec::new();
    let mut i: usize = 0;
    while i < ranges.len()
        invariant
            i <= ranges@.len(),
            copy@ == ranges@.take(i as int),
        decreases ranges@.len() - i,
    {
        copy.push(ranges[i].start..ranges[i].end);
        i = i + 1;
    }
    copy
}

impl EditorView {
    /// The cached projection is well formed, and the number of the current match can be counted
    /// up.
    pub open spec fn wf(self) -> bool {
        &&& self.search_current_match < usize::MAX
        &&& self.cached_projection matches Some((revision, inline, projection)) ==> projection.wf()
    }

    pub fn new() -> (editor: Self)
        ensures
            editor@ == new_editor(),
            editor.wf(),
    {
        EditorView {
            caret_visible: true,
            cached_text: None,
            cached_projection: None,
            marked_range: None,
            ime_edit_active: false,
            search_active: false,
            search_query: String::new(),
            search_current_match: 0,
            cached_search: None,
            pending_scroll_to_byte: None,
            pending_outline_reveal_byte: None,
        }
    }

    /// Turns the caret on or off, half a second after the last time. Large documents keep a
    /// steady caret so the blink timer cannot force a full editor render every time. Returns
    /// whether there is something new to show.
    pub fn blink(&mut self, doc: &DocumentState) -> (changed: bool)
        ensures
            final(self)@ == (EditorModel {
                caret_visible: encode_utf8(doc@.text).len() > HEAVY_DOCUMENT_BYTES || !old(
                    self,
                )@.caret_visible,
                ..old(self)@
            }),
            changed == (final(self)@.caret_visible != old(self)@.caret_visible),
            old(self).wf() ==> final(self).wf(),
    {
        if doc.len_bytes() <= HEAVY_DOCUMENT_BYTES {
            self.caret_visible = !self.caret_visible;
            true
        } else if !self.caret_visible {
            self.caret_visible = true;
            true
        } else {
            false
        }
    }

    /// Scrolls the editor so the current cursor is visible.
    pub fn reveal_cursor(&mut self, doc: &DocumentState)
        ensures
            final(self)@ == (EditorModel {
                pending_scroll_to_byte: Some(
                    byte_of(doc@.text, doc@.cursor as int) as usize,
                ),
                ..old(self)@
            }),
            old(self).wf() ==> final(self).wf(),
    {
        self.pending_scroll_to_byte = Some(doc.char_to_byte(doc.cursor));
    }

    /// Aligns an Outline target to a stable top inset using its real text layout Y.
    pub fn reveal_outline(&mut self, byte: usize)
        ensures
            final(self)@ == (EditorModel {
                pending_scroll_to_byte: None,
                pending_outline_reveal_byte: Some(byte),
                ..old(self)@
            }),
            old(self).wf() ==> final(self).wf(),
    {
        self.pending_scroll_to_byte = None;
        self.pending_outline_reveal_byte = Some(byte);
    }

    /// The target that is to be revealed, and whether it is to be aligned to the top.
    pub fn take_pending_reveal(&mut self) -> (reveal: Option<(usize, bool)>)
        ensures
            ({
                let before = old(self)@;
                match before.pending_outline_reveal_byte {
                    Some(byte) => {
                        &&& reveal == Some((byte, true))
                        &&& final(self)@ == (EditorModel {
                            pending_outline_reveal_byte: None,
                            ..before
                        })
                    },
                    None => {
                        &&& reveal == (match before.pending_scroll_to_byte {
                            Some(byte) => Some((byte, false)),
                            None => None,
                        })
                        &&& final(self)@ == (EditorModel { pending_scroll_to_byte: None, ..before })
                    },
                }
            }),
            old(self).wf() ==> final(self).wf(),
    {
        match self.pending_outline_reveal_byte.take() {
            Some(byte) => Some((byte, true)),
            None => match self.pending_scroll_to_byte.take() {
                Some(byte) => Some((byte, false)),
                None => None,
            },
        }
    }

    /// The text of the document, which is read only when the document has changed.
    pub fn current_text_and_revision(&mut self, doc: &DocumentState) -> (current: (String, u64))
        ensures
            current.0@ == old(self)@.current_text(doc@),
            current.1 == doc@.revision,
            final(self)@ == old(self)@.with_text(doc@),
            old(self).wf() ==> final(self).wf(),
    {
        let revision = doc.revision;
        match &self.cached_text {
            Some((cached_revision, cached)) => {
                if *cached_revision == revision {
                    return (cached.clone(), revision);
                }
            },
            None => {},
        }
        let text = doc.text();
        self.cached_text = Some((revision, text.clone()));
        (text, revision)
    }

    pub fn invalidate_search_cache(&mut self)
        ensures
            final(self)@ == (EditorModel { cached_search: None, ..old(self)@ }),
            old(self).wf() ==> final(self).wf(),
    {
        self.cached_search = None;
    }

    /// Searches for the query, unless that has been done for the revision.
    pub fn ensure_search_cache(&mut self, text: &str, revision: u64) -> (matches: Vec<Range<usize>>)
        ensures
            matches@ == old(self)@.matches(text@, revision),
            final(self)@ == old(self)@.with_search(text@, revision),
            old(self).wf() ==> final(self).wf(),
    {
        match &self.cached_search {
            Some(cache) => {
                if cache.revision == revision && same_text(
                    cache.query.as_str(),
                    self.search_query.as_str(),
                ) {
                    return copy_ranges(&cache.matches);
                }
            },
            None => {},
        }
        let query = self.search_query.clone();
        let matches = find_all_matches_case_insensitive(text, query.as_str());
        let copy = copy_ranges(&matches);
        self.cached_search = Some(SearchCache { revision, query, matches });
        copy
    }

    /// The matches that are highlighted while the find panel is open.
    pub fn search_highlights(&mut self, text: &str, revision: u64) -> (matches: Vec<Range<usize>>)
        ensures
            ({
                let before = old(self)@;
                if before.search_active && before.search_query.len() > 0 {
                    &&& matches@ == before.matches(text@, revision)
                    &&& final(self)@ == before.with_search(text@, revision)
                } else {
                    &&& matches@ == Seq::<Range<usize>>::empty()
                    &&& final(self)@ == before
                }
            }),
            old(self).wf() ==> final(self).wf(),
    {
        if !self.search_active || self.search_query.as_str().is_empty() {
            return Vec::new();
        }
        self.ensure_search_cache(text, revision)
    }

    /// Opens the find panel and goes to the first match.
    pub fn activate_search(&mut self, doc: &mut DocumentState)
        requires
            old(self).wf(),
            old(self)@.can_seed(old(doc)@),
        ensures
            (final(self)@, final(doc)@) == old(self)@.activate(old(doc)@),
            final(self).wf(),
    {
        self.search_active = true;
        if self.search_query.as_str().is_empty() {
            match commands::copy(doc) {
                Some(seed) => {
                    if !blank(seed.as_str()) && !has_char(seed.as_str(), '\n') {
                        self.search_query = seed;
                    }
                },
                None => {},
            }
        }
        self.search_current_match = 0;
        self.invalidate_search_cache();
        self.select_current_search_match(doc);
    }

    pub fn close_search(&mut self)
        ensures
            final(self)@ == old(self)@.close(),
            old(self).wf() ==> final(self).wf(),
    {
        self.search_active = false;
    }

    /// Selects the current match of the query in the document. Returns whether there is one.
    pub fn select_current_search_match(&mut self, doc: &mut DocumentState) -> (selected: bool)
        requires
            old(self).wf(),
        ensures
            (final(self)@, final(doc)@) == old(self)@.select_match(old(doc)@),
            selected == (old(self)@.search_query.len() > 0 && old(self)@.found(old(doc)@).len()
                > 0),
            final(self).wf(),
    {
        if self.search_query.as_str().is_empty() {
            return false;
        }
        let (text, revision) = self.current_text_and_revision(doc);
        let matches = self.ensure_search_cache(text.as_str(), revision);
        if matches.len() == 0 {
            return false;
        }
        if self.search_current_match >= matches.len() {
            self.search_current_match = 0;
        }
        let range = &matches[self.search_current_match];
        let start = doc.byte_to_char(range.start);
        let end = doc.byte_to_char(range.end);
        doc.set_selection(start, end);
        self.pending_scroll_to_byte = Some(range.start);
        true
    }

    /// Goes to the next match or back to the previous one. Returns whether there is any.
    pub fn jump_search(&mut self, doc: &mut DocumentState, forward: bool) -> (jumped: bool)
        requires
            old(self).wf(),
        ensures
            (final(self)@, final(doc)@) == old(self)@.jump(old(doc)@, forward),
            jumped == (old(self)@.search_query.len() > 0 && old(self)@.found(old(doc)@).len() > 0),
            final(self).wf(),
    {
        if self.search_query.as_str().is_empty() {
            return false;
        }
        let (text, revision) = self.current_text_and_revision(doc);
        let total_matches = self.ensure_search_cache(text.as_str(), revision).len();
        if total_matches == 0 {
            return false;
        }
        if forward {
            self.search_current_match = (self.search_current_match + 1) % total_matches;
        } else if self.search_current_match == 0 {
            self.search_current_match = total_matches - 1;
        } else {
            self.search_current_match = self.search_current_match - 1;
        }
        self.select_current_search_match(doc)
    }

    /// The text of a range that platform input asks for, and the range that it is of.
    pub fn text_for_range(&self, doc: &DocumentState, range_utf16: &Range<usize>) -> (found: (
        String,
        Range<usize>,
    ))
        ensures
            ({
                let chars = chars_at_utf16(doc@.text, *range_utf16);
                &&& found.0@ == doc@.text.subrange(chars.start as int, chars.end as int)
                &&& found.1 == utf16_range(doc@.text, chars)
            }),
    {
        let range = utf16_range_to_chars(doc, range_utf16);
        let adjusted = char_range_to_utf16(doc, &range);
        (doc.slice_chars(range), adjusted)
    }

    /// The selection, or the place of the cursor, for platform input.
    pub fn selected_text_range(&self, doc: &DocumentState) -> (selection: Utf16Selection)
        ensures
            selection.range == utf16_range(
                doc@.text,
                (match doc@.selection {
                    Some(range) => range,
                    None => Range { start: doc@.cursor, end: doc@.cursor },
                }),
            ),
            selection.reversed == (doc@.selection is Some && (doc@.selection_anchor matches Some(
                anchor,
            ) && doc@.cursor < anchor)),
    {
        let range = match doc.selection_range() {
            Some(range) => range,
            None => doc.cursor..doc.cursor,
        };
        let reversed = match doc.selection_anchor {
            Some(anchor) => doc.selection.is_some() && doc.cursor < anchor,
            None => false,
        };
        Utf16Selection { range: char_range_to_utf16(doc, &range), reversed }
    }

    /// The range of the composition, for platform input.
    pub fn marked_text_range(&self, doc: &DocumentState) -> (marked: Option<Range<usize>>)
        ensures
            marked == (match self@.marked_range {
                Some(range) => Some(utf16_range(doc@.text, range)),
                None => None,
            }),
    {
        match &self.marked_range {
            Some(range) => Some(char_range_to_utf16(doc, range)),
            None => None,
        }
    }

    /// Ends a composition and leaves its text as it is.
    pub fn unmark_text(&mut self, doc: &mut DocumentState)
        ensures
            final(self)@ == old(self)@.uncomposed(),
            final(doc)@ == (if old(self)@.ime_edit_active {
                old(doc)@.commit_edit()
            } else {
                old(doc)@
            }),
            old(self).wf() ==> final(self).wf(),
    {
        if self.ime_edit_active {
            doc.commit_edit();
        }
        self.ime_edit_active = false;
        self.marked_range = None;
    }

    /// The characters that platform input replaces.
    fn input_target(&self, doc: &DocumentState, range_utf16: &Option<Range<usize>>) -> (target:
        Range<usize>)
        ensures
            target == self@.target(doc@, *range_utf16),
    {
        match range_utf16 {
            Some(range) => utf16_range_to_chars(doc, range),
            None => match copy_range(&self.marked_range) {
                Some(range) => range,
                None => match doc.selection_range() {
                    Some(range) => range,
                    None => doc.cursor..doc.cursor,
                },
            },
        }
    }

    /// Puts in text from the platform and ends the composition, if there is one.
    pub fn replace_text_in_range(
        &mut self,
        doc: &mut DocumentState,
        range_utf16: Option<Range<usize>>,
        text: &str,
    )
        ensures
            final(doc)@ == old(doc)@.input(
                old(self)@.ime_edit_active,
                old(self)@.target(old(doc)@, range_utf16),
                text@,
            ),
            final(self)@ == old(self)@.uncomposed(),
            old(self).wf() ==> final(self).wf(),
    {
        let target = self.input_target(doc, &range_utf16);
        let start = replace(doc, !self.ime_edit_active, &target, text);
        doc.set_cursor(start.saturating_add(text.unicode_len()));
        doc.commit_edit();
        self.ime_edit_active = false;
        self.marked_range = None;
    }

    /// Puts in a step of a composition, whose text is marked and may be replaced again.
    pub fn replace_and_mark_text_in_range(
        &mut self,
        doc: &mut DocumentState,
        range_utf16: Option<Range<usize>>,
        new_text: &str,
        new_selected_range_utf16: Option<Range<usize>>,
    )
        ensures
            ({
                let target = old(self)@.target(old(doc)@, range_utf16);
                let start = target_start(target, old(doc)@.len());
                &&& final(doc)@ == old(doc)@.compose(
                    old(self)@.ime_edit_active,
                    target,
                    new_text@,
                    new_selected_range_utf16,
                )
                &&& final(self)@ == (EditorModel {
                    ime_edit_active: true,
                    marked_range: if new_text@.len() > 0 {
                        Some(Range { start: start as usize, end: capped(start + new_text@.len()) })
                    } else {
                        None
                    },
                    ..old(self)@
                })
            }),
            old(self).wf() ==> final(self).wf(),
    {
        let target = self.input_target(doc, &range_utf16);
        let inserted_chars = new_text.unicode_len();
        let selection = match &new_selected_range_utf16 {
            Some(range) => {
                let start = utf16_offset_to_char_in_str(new_text, range.start);
                let end = utf16_offset_to_char_in_str(new_text, range.end);
                if end < start {
                    start..start
                } else {
                    start..end
                }
            },
            None => inserted_chars..inserted_chars,
        };
        let start = replace(doc, !self.ime_edit_active, &target, new_text);
        let marked_range = if inserted_chars > 0 {
            Some(start..start.saturating_add(inserted_chars))
        } else {
            None
        };
        let len = doc.len_chars();
        let selection_start = min(start.saturating_add(min(selection.start, inserted_chars)), len);
        let selection_end = min(start.saturating_add(min(selection.end, inserted_chars)), len);
        if selection_start == selection_end {
            doc.set_cursor(selection_end);
        } else {
            doc.set_selection(selection_start, selection_end);
        }
        self.ime_edit_active = true;
        self.marked_range = marked_range;
    }

    /// The displayed byte at which the platform shows what belongs to a range of the text.
    pub fn bounds_for_range(
        &self,
        doc: &DocumentState,
        projection: &DisplayProjection,
        range_utf16: &Range<usize>,
    ) -> (display_byte: usize)
        requires
            projection.wf(),
        ensures
            display_byte == projection.display_byte(
                byte_of(doc@.text, chars_at_utf16(doc@.text, *range_utf16).end as int),
            ),
    {
        let range = utf16_range_to_chars(doc, range_utf16);
        projection.source_to_display_byte(doc.char_to_byte(range.end))
    }

    /// The place in the text, for platform input, of a displayed byte.
    pub fn character_index_for_point(
        &self,
        doc: &DocumentState,
        projection: &DisplayProjection,
        display_byte: usize,
    ) -> (index: usize)
        requires
            projection.wf(),
        ensures
            index == utf16_of(
                doc@.text,
                char_of(doc@.text, projection.source_byte(display_byte as int)),
            ),
    {
        let source_byte = projection.display_to_source_byte(display_byte);
        char_index_to_utf16(doc, doc.byte_to_char(source_byte))
    }
}

/// The smaller of the two.
fn min(a: usize, b: usize) -> (least: usize)
    ensures
        least == clamped(a as int, b as int),
{
    if a <= b {
        a
    } else {
        b
    }
}

/// Replaces the characters of a target with a text and returns where it starts.
fn replace(doc: &mut DocumentState, begin: bool, target: &Range<usize>, text: &str) -> (start:
    usize)
    ensures
        final(doc)@ == old(doc)@.replace(begin, *target, text@),
        start == target_start(*target, old(doc)@.len()),
{
    if begin {
        doc.begin_edit();
    }
    let len = doc.len_chars();
    let start = min(target.start, len);
    let limit = min(target.end, len);
    if start < limit {
        doc.delete_range(start..limit);
    }
    if !text.is_empty() {
        doc.insert(start, text);
    }
    start
}

} // verus!
