//! The outline of a document: its headings, and the one that is being read.
use crate::commands;
use crate::document::{DocumentState, DocumentView};
use crate::text::trim;
use crate::text::{trimmed, trimming_once_is_enough};
use pulldown_cmark::{Event, HeadingLevel as CmarkLevel, Parser, Tag, TagEnd};
use vstd::prelude::*;
use vstd::string::*;

verus! {

/// The level of a heading.
#[derive(Debug, Clone, Copy, PartialEq, Eq, Structural)]
pub enum HeadingLevel {
    H1,
    H2,
    H3,
    H4,
    H5,
    H6,
}

/// What an outline reads of a Markdown text, in the order of the text.
#[derive(Debug)]
pub enum MarkdownEvent {
    /// A heading that starts at the given byte.
    HeadingStart(HeadingLevel, usize),
    HeadingEnd,
    Text(String),
    Code(String),
    SoftBreak,
    HardBreak,
    /// Anything else.
    Other,
}

/// An event, over the characters of its text.
pub enum EventView {
    HeadingStart(HeadingLevel, usize),
    HeadingEnd,
    Text(Seq<char>),
    Code(Seq<char>),
    SoftBreak,
    HardBreak,
    Other,
}

impl View for MarkdownEvent {
    type V = EventView;

    open spec fn view(&self) -> EventView {
        match *self {
            MarkdownEvent::HeadingStart(level, start) => EventView::HeadingStart(level, start),
            MarkdownEvent::HeadingEnd => EventView::HeadingEnd,
            MarkdownEvent::Text(text) => EventView::Text(text@),
            MarkdownEvent::Code(text) => EventView::Code(text@),
            MarkdownEvent::SoftBreak => EventView::SoftBreak,
            MarkdownEvent::HardBreak => EventView::HardBreak,
            MarkdownEvent::Other => EventView::Other,
        }
    }
}

/// The views of a list of events.
pub open spec fn event_views(events: Seq<MarkdownEvent>) -> Seq<EventView> {
    events.map_values(|event: MarkdownEvent| event@)
}

/// The events that `pulldown_cmark` reads from a text.
pub uninterp spec fn markdown_events(text: Seq<char>) -> Seq<EventView>;

/// `Parser::into_offset_iter` reads a text as CommonMark and gives its events, each with its
/// byte range. Which events a text has is left open.
#[verifier::external_body]
fn read_markdown(text: &str) -> (events: Vec<MarkdownEvent>)
    ensures
        event_views(events@) == markdown_events(text@),
{
    let events = Parser::new(text).into_offset_iter().map(|(event, range)| match event {
        Event::Start(Tag::Heading { level, .. }) => MarkdownEvent::HeadingStart(match level {
            CmarkLevel::H1 => HeadingLevel::H1, CmarkLevel::H2 => HeadingLevel::H2,
            CmarkLevel::H3 => HeadingLevel::H3, CmarkLevel::H4 => HeadingLevel::H4,
            CmarkLevel::H5 => HeadingLevel::H5, CmarkLevel::H6 => HeadingLevel::H6,
        }, range.start),
        Event::End(TagEnd::Heading(_)) => MarkdownEvent::HeadingEnd,
        Event::Text(value) => MarkdownEvent::Text(value.into_string()),
        Event::Code(value) => MarkdownEvent::Code(value.into_string()),
        Event::SoftBreak => MarkdownEvent::SoftBreak,
        Event::HardBreak => MarkdownEvent::HardBreak,
        _ => MarkdownEvent::Other,
    });
    events.collect()
}

/// A heading of a document.
#[derive(Debug)]
pub struct OutlineItem {
    pub ordinal: usize,
    pub level: u32,
    pub title: String,
    pub byte_start: usize,
}

/// A heading, over the characters of its title.
#[verifier::ext_equal]
pub struct ItemView {
    pub ordinal: usize,
    pub level: u32,
    pub title: Seq<char>,
    pub byte_start: usize,
}

impl View for OutlineItem {
    type V = ItemView;

    open spec fn view(&self) -> ItemView {
        ItemView {
            ordinal: self.ordinal,
            level: self.level,
            title: self.title@,
            byte_start: self.byte_start,
        }
    }
}

impl Clone for OutlineItem {
    fn clone(&self) -> (copy: Self)
        ensures
            copy@ == self@,
    {
        OutlineItem {
            ordinal: self.ordinal,
            level: self.level,
            title: self.title.clone(),
            byte_start: self.byte_start,
        }
    }
}

/// The views of a list of headings.
pub open spec fn item_views(items: Seq<OutlineItem>) -> Seq<ItemView> {
    items.map_values(|item: OutlineItem| item@)
}

/// The number of a level.
pub open spec fn level_number(level: HeadingLevel) -> u32 {
    match level {
        HeadingLevel::H1 => 1,
        HeadingLevel::H2 => 2,
        HeadingLevel::H3 => 3,
        HeadingLevel::H4 => 4,
        HeadingLevel::H5 => 5,
        HeadingLevel::H6 => 6,
    }
}

pub fn heading_level_number(level: HeadingLevel) -> (number: u32)
    ensures
        number == level_number(level),
{
    match level {
        HeadingLevel::H1 => 1,
        HeadingLevel::H2 => 2,
        HeadingLevel::H3 => 3,
        HeadingLevel::H4 => 4,
        HeadingLevel::H5 => 5,
        HeadingLevel::H6 => 6,
    }
}

/// What has been read of an outline: the headings, and the one that is being read with what
/// there is of its title.
#[verifier::ext_equal]
pub struct OutlineReading {
    pub items: Seq<ItemView>,
    pub current: Option<(HeadingLevel, usize, Seq<char>)>,
}

impl OutlineReading {
    /// The reading with more in the title of the heading.
    pub open spec fn with_title(self, more: Seq<char>) -> Self {
        match self.current {
            Some((level, start, title)) => OutlineReading {
                current: Some((level, start, title + more)),
                ..self
            },
            None => self,
        }
    }

    /// The reading after one more event.
    pub open spec fn read(self, event: EventView) -> Self {
        match event {
            EventView::HeadingStart(level, start) => OutlineReading {
                current: Some((level, start, Seq::empty())),
                ..self
            },
            EventView::Text(text) => self.with_title(text),
            EventView::Code(text) => self.with_title(text),
            EventView::SoftBreak | EventView::HardBreak => match self.current {
                Some((level, start, title)) => if title.len() > 0 && title.last() == ' ' {
                    self
                } else {
                    self.with_title(seq![' '])
                },
                None => self,
            },
            EventView::HeadingEnd => match self.current {
                Some((level, start, title)) => OutlineReading {
                    items: if trimmed(title).len() > 0 {
                        self.items.push(
                            ItemView {
                                ordinal: self.items.len() as usize,
                                level: level_number(level),
                                title: trimmed(title),
                                byte_start: start,
                            },
                        )
                    } else {
                        self.items
                    },
                    current: None,
                },
                None => self,
            },
            EventView::Other => self,
        }
    }
}

/// The reading of a list of events.
pub open spec fn reading(events: Seq<EventView>) -> OutlineReading
    decreases events.len(),
{
    if events.len() == 0 {
        OutlineReading { items: Seq::empty(), current: None }
    } else {
        reading(events.drop_last()).read(events.last())
    }
}

/// The headings of a list of events.
pub open spec fn outline(events: Seq<EventView>) -> Seq<ItemView> {
    reading(events).items
}

/// The headings of an outline are numbered in the order of the text, have a level from one to
/// six and a title without white space around it.
pub proof fn outline_is_numbered(events: Seq<EventView>)
    requires
        events.len() <= usize::MAX,
    ensures
        outline(events).len() <= events.len(),
        forall|k: int|
            #![trigger outline(events)[k]]
            0 <= k < outline(events).len() ==> {
                &&& outline(events)[k].ordinal == k
                &&& 1 <= outline(events)[k].level <= 6
                &&& outline(events)[k].title.len() > 0
                &&& trimmed(outline(events)[k].title) == outline(events)[k].title
            },
    decreases events.len(),
{
    if events.len() > 0 {
        outline_is_numbered(events.drop_last());
        let before = outline(events.drop_last());
        let after = outline(events);
        assert forall|k: int| #![trigger after[k]] 0 <= k < after.len() implies {
            &&& after[k].ordinal == k
            &&& 1 <= after[k].level <= 6
            &&& after[k].title.len() > 0
            &&& trimmed(after[k].title) == after[k].title
        } by {
            if k < before.len() {
                assert(after[k] == before[k]);
            } else if let Some((level, start, title)) = reading(events.drop_last()).current {
                trimming_once_is_enough(title);
            }
        }
    }
}

/// Headings that are numbered in order, each with a level from one to six and a title without
/// white space around it.
pub open spec fn are_numbered(items: Seq<OutlineItem>) -> bool {
    forall|k: int|
        #![trigger items[k]]
        0 <= k < items.len() ==> {
            &&& items[k].ordinal == k
            &&& 1 <= items[k].level <= 6
            &&& items[k].title@.len() > 0
            &&& trimmed(items[k].title@) == items[k].title@
        }
}

/// The headings that a list of events holds.
pub fn outline_of_events(events: &Vec<MarkdownEvent>) -> (items: Vec<OutlineItem>)
    ensures
        item_views(items@) == outline(event_views(events@)),
        are_numbered(items@),
{
    let mut items: Vec<OutlineItem> = Vec::new();
    let mut current_heading: Option<(HeadingLevel, usize, String)> = None;
    let ghost views = event_views(events@);
    let mut i: usize = 0;
    assert(item_views(items@) =~= Seq::<ItemView>::empty());
    while i < events.len()
        invariant
            i <= events@.len(),
            views == event_views(events@),
            item_views(items@) == reading(views.take(i as int)).items,
            reading(views.take(i as int)).current == (match current_heading {
                Some((level, start, title)) => Some((level, start, title@)),
                None => None,
            }),
        decreases events@.len() - i,
    {
        let ghost before = items@;
        proof {
            assert(views.take(i + 1).drop_last() =~= views.take(i as int));
            assert(views.take(i + 1).last() == events@[i as int]@);
        }
        match &events[i] {
            MarkdownEvent::HeadingStart(level, start) => {
                current_heading = Some((*level, *start, String::new()));
            },
            MarkdownEvent::Text(value) | MarkdownEvent::Code(value) => {
                current_heading = match current_heading {
                    Some((level, start, title)) => {
                        let mut title = title;
                        title.append(value.as_str());
                        Some((level, start, title))
                    },
                    None => None,
                };
            },
            MarkdownEvent::SoftBreak | MarkdownEvent::HardBreak => {
                current_heading = match current_heading {
                    Some((level, start, title)) => {
                        let mut title = title;
                        let len = title.as_str().unicode_len();
                        if len == 0 || title.as_str().get_char(len - 1) != ' ' {
                            let ghost whole = title@;
                            title.push(' ');
                            assert(title@ =~= whole + seq![' ']);
                        }
                        Some((level, start, title))
                    },
                    None => None,
                };
            },
            MarkdownEvent::HeadingEnd => {
                match current_heading {
                    Some((level, byte_start, title)) => {
                        let title = trim(title.as_str());
                        if !title.as_str().is_empty() {
                            let item = OutlineItem {
                                ordinal: items.len(),
                                level: heading_level_number(level),
                                title,
                                byte_start,
                            };
                            assert(item_views(before.push(item)) =~= item_views(before).push(
                                item@,
                            ));
                            items.push(item);
                        }
                    },
                    None => {},
                }
                current_heading = None;
            },
            MarkdownEvent::Other => {},
        }
        i = i + 1;
    }
    proof {
        assert(views.take(i as int) =~= views);
        outline_is_numbered(views);
        assert forall|k: int| #![trigger items@[k]] 0 <= k < items@.len() implies {
            &&& items@[k].ordinal == k
            &&& 1 <= items@[k].level <= 6
            &&& items@[k].title@.len() > 0
            &&& trimmed(items@[k].title@) == items@[k].title@
        } by {
            assert(outline(views)[k] == items@[k]@);
        }
    }
    items
}

/// The headings of a Markdown text.
pub fn parse_outline_items(text: &str) -> (items: Vec<OutlineItem>)
    ensures
        item_views(items@) == outline(markdown_events(text@)),
        are_numbered(items@),
{
    outline_of_events(&read_markdown(text))
}

/// The heading that a byte belongs to: the last one that does not start behind it, or the first
/// one. Without headings there is none.
pub open spec fn is_active(items: Seq<ItemView>, byte: int, ordinal: Option<usize>) -> bool {
    match ordinal {
        None => items.len() == 0,
        Some(ordinal) => {
            &&& ordinal < items.len()
            &&& forall|k: int| ordinal < k < items.len() ==> byte < (#[trigger] items[k]).byte_start
            &&& ordinal > 0 ==> items[ordinal as int].byte_start <= byte
        },
    }
}

/// There is one active heading at most.
pub proof fn active_heading_is_unique(
    items: Seq<ItemView>,
    byte: int,
    first: Option<usize>,
    second: Option<usize>,
)
    requires
        is_active(items, byte, first),
        is_active(items, byte, second),
    ensures
        first == second,
{
    if let Some(a) = first {
        if let Some(b) = second {
            if a < b {
                assert(byte < items[b as int].byte_start);
            }
            if b < a {
                assert(byte < items[a as int].byte_start);
            }
        }
    }
}

pub fn active_outline_ordinal(items: &Vec<OutlineItem>, byte: usize) -> (ordinal: Option<usize>)
    ensures
        is_active(item_views(items@), byte as int, ordinal),
{
    if items.is_empty() {
        return None;
    }
    let mut ordinal: usize = items.len() - 1;
    while ordinal > 0
        invariant
            ordinal < items@.len(),
            forall|k: int| ordinal < k < items@.len() ==> byte < (#[trigger] items@[k]).byte_start,
        decreases ordinal,
    {
        if items[ordinal].byte_start <= byte {
            return Some(ordinal);
        }
        ordinal = ordinal - 1;
    }
    Some(0)
}

/// What the outline panel keeps: the headings of a revision of the document, and the active one.
#[derive(Debug)]
pub struct FileExplorerView {
    pub cached_outline: Option<(u64, Vec<OutlineItem>)>,
    /// Currently active heading in document order.
    pub active_outline_ordinal: Option<usize>,
}

/// The outline panel, over the characters of its titles.
#[verifier::ext_equal]
pub struct ExplorerModel {
    pub cached_outline: Option<(u64, Seq<ItemView>)>,
    pub active_outline_ordinal: Option<usize>,
}

impl View for FileExplorerView {
    type V = ExplorerModel;

    open spec fn view(&self) -> ExplorerModel {
        ExplorerModel {
            cached_outline: match self.cached_outline {
                Some((revision, items)) => Some((revision, item_views(items@))),
                None => None,
            },
            active_outline_ordinal: self.active_outline_ordinal,
        }
    }
}

impl ExplorerModel {
    /// The headings of the document, from the cache if they are of its revision.
    pub open spec fn items(self, doc: DocumentView) -> Seq<ItemView> {
        match self.cached_outline {
            Some((revision, items)) => if revision == doc.revision {
                items
            } else {
                outline(markdown_events(doc.text))
            },
            None => outline(markdown_events(doc.text)),
        }
    }

    /// The panel with the headings of the document cached.
    pub open spec fn with_items(self, doc: DocumentView) -> Self {
        ExplorerModel { cached_outline: Some((doc.revision, self.items(doc))), ..self }
    }
}

/// A copy of a list of headings.
fn copy_items(items: &Vec<OutlineItem>) -> (copy: Vec<OutlineItem>)
    ensures
        item_views(copy@) == item_views(items@),
{
    let mut copy: Vec<OutlineItem> = Vec::new();
    let mut i: usize = 0;
    assert(item_views(copy@) =~= item_views(items@).take(0));
    while i < items.len()
        invariant
            i <= items@.len(),
            item_views(copy@) == item_views(items@).take(i as int),
        decreases items@.len() - i,
    {
        let ghost before = copy@;
        let item = items[i].clone();
        assert(item_views(before.push(item)) =~= item_views(before).push(item@));
        assert(item_views(items@).take(i + 1) =~= item_views(items@).take(i as int).push(item@));
        copy.push(item);
        i = i + 1;
    }
    copy
}

impl FileExplorerView {
    pub fn new() -> (view: Self)
        ensures
            view@ == (ExplorerModel { cached_outline: None, active_outline_ordinal: None }),
    {
        FileExplorerView { cached_outline: None, active_outline_ordinal: None }
    }

    /// Makes another heading active. Returns whether it was not active before.
    pub fn set_active_outline(&mut self, ordinal: Option<usize>) -> (changed: bool)
        ensures
            final(self)@ == (ExplorerModel { active_outline_ordinal: ordinal, ..old(self)@ }),
            changed == (old(self)@.active_outline_ordinal != ordinal),
    {
        let same = match (self.active_outline_ordinal, ordinal) {
            (Some(active), Some(ordinal)) => active == ordinal,
            (None, None) => true,
            _ => false,
        };
        self.active_outline_ordinal = ordinal;
        !same
    }

    /// The headings of the document, which are read only when the document has changed.
    pub fn outline_items(&mut self, doc: &DocumentState) -> (items: Vec<OutlineItem>)
        ensures
            item_views(items@) == old(self)@.items(doc@),
            final(self)@ == old(self)@.with_items(doc@),
    {
        match &self.cached_outline {
            Some((cached_revision, items)) => {
                if *cached_revision == doc.revision {
                    return copy_items(items);
                }
            },
            None => {},
        }
        let text = doc.text();
        let parsed = parse_outline_items(text.as_str());
        let copy = copy_items(&parsed);
        self.cached_outline = Some((doc.revision, parsed));
        copy
    }

    /// Makes the heading that a byte of the document belongs to active. Returns whether it was
    /// not active before.
    pub fn set_active_outline_for_byte(&mut self, doc: &DocumentState, byte: usize) -> (changed:
        bool)
        ensures
            is_active(
                old(self)@.items(doc@),
                byte as int,
                final(self)@.active_outline_ordinal,
            ),
            final(self)@ == (ExplorerModel {
                active_outline_ordinal: final(self)@.active_outline_ordinal,
                ..old(self)@.with_items(doc@)
            }),
            changed == (old(self)@.active_outline_ordinal != final(self)@.active_outline_ordinal),
    {
        let items = self.outline_items(doc);
        self.set_active_outline(active_outline_ordinal(&items, byte))
    }

    /// Makes a heading that was clicked active and puts the cursor at it. Returns whether it was
    /// not active before.
    pub fn select_entry(&mut self, doc: &mut DocumentState, ordinal: usize, byte_start: usize) -> (changed:
        bool)
        ensures
            final(self)@ == (ExplorerModel { active_outline_ordinal: Some(ordinal), ..old(self)@ }),
            final(doc)@ == old(doc)@.point_at(byte_start as int, false),
            changed == (old(self)@.active_outline_ordinal != Some(ordinal)),
    {
        let changed = self.set_active_outline(Some(ordinal));
        commands::point_at(doc, byte_start, false);
        changed
    }
}

} // verus!
