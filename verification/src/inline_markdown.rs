//! The parse of the document's source that the editor colors it by.
use crate::syntax::SyntaxSpan;
use vstd::prelude::*;

verus! {

/// The largest source that is parsed at once; a larger one is parsed in the background.
pub const INLINE_SYNC_PARSE_MAX_BYTES: usize = 65536;

/// The spans of a source, and the revision of the document that they are of.
#[derive(Debug)]
pub struct InlineMarkdownState {
    pub spans: Vec<SyntaxSpan>,
    pub source_revision: u64,
    pub parse_millis: u64,
    /// The number of parses that came too late.
    pub dropped_updates: u64,
}

impl InlineMarkdownState {
    pub fn new() -> (state: Self)
        ensures
            state.spans@ == Seq::<SyntaxSpan>::empty(),
            state.source_revision == 0,
            state.parse_millis == 0,
            state.dropped_updates == 0,
    {
        InlineMarkdownState {
            spans: Vec::new(),
            source_revision: 0,
            parse_millis: 0,
            dropped_updates: 0,
        }
    }

    /// Takes over the parse of a revision, unless a later one has been parsed. Returns whether
    /// it did.
    pub fn apply(&mut self, revision: u64, spans: Vec<SyntaxSpan>, parse_millis: u64) -> (applied:
        bool)
        ensures
            applied == (revision >= old(self).source_revision),
            applied ==> {
                &&& final(self).spans == spans
                &&& final(self).source_revision == revision
                &&& final(self).parse_millis == parse_millis
                &&& final(self).dropped_updates == old(self).dropped_updates
            },
            !applied ==> {
                &&& final(self).spans == old(self).spans
                &&& final(self).source_revision == old(self).source_revision
                &&& final(self).parse_millis == old(self).parse_millis
                &&& final(self).dropped_updates == (if old(self).dropped_updates == u64::MAX {
                    u64::MAX as int
                } else {
                    old(self).dropped_updates + 1
                })
            },
            final(self).source_revision >= old(self).source_revision,
    {
        if revision >= self.source_revision {
            self.spans = spans;
            self.source_revision = revision;
            self.parse_millis = parse_millis;
            true
        } else {
            self.dropped_updates = self.dropped_updates.saturating_add(1);
            false
        }
    }
}

/// How a source is to be parsed.
#[derive(Debug, Clone, Copy, PartialEq, Eq, Structural)]
pub enum InlineParse {
    /// The parse is there or on its way.
    NotNeeded,
    /// Parse at once, so that styles do not flicker between keystrokes.
    Now,
    /// Wait for a pause and parse in the background, to keep typing fast.
    Later,
}

/// The revisions of the document for which a parse has been asked.
#[derive(Debug)]
pub struct InlineSchedule {
    /// Highest document revision for which an inline parse has been scheduled.
    pub scheduled_inline_revision: u64,
}

impl InlineSchedule {
    pub fn new() -> (schedule: Self)
        ensures
            schedule.scheduled_inline_revision == 0,
    {
        InlineSchedule { scheduled_inline_revision: 0 }
    }

    /// Says how the source of a revision is to be parsed, and takes note of it.
    pub fn schedule(&mut self, doc_revision: u64, inline_revision: u64, doc_bytes: usize) -> (parse:
        InlineParse)
        ensures
            parse == (if doc_revision == inline_revision || doc_revision <= old(
                self,
            ).scheduled_inline_revision {
                InlineParse::NotNeeded
            } else if doc_bytes <= INLINE_SYNC_PARSE_MAX_BYTES {
                InlineParse::Now
            } else {
                InlineParse::Later
            }),
            final(self).scheduled_inline_revision == (if parse is NotNeeded {
                old(self).scheduled_inline_revision
            } else {
                doc_revision
            }),
    {
        if doc_revision != inline_revision && self.scheduled_inline_revision < doc_revision {
            self.scheduled_inline_revision = doc_revision;
            if doc_bytes <= INLINE_SYNC_PARSE_MAX_BYTES {
                InlineParse::Now
            } else {
                InlineParse::Later
            }
        } else {
            InlineParse::NotNeeded
        }
    }
}

} // verus!
