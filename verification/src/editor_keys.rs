//! What the keys do in the editor and in its find panel.
use crate::commands;
use crate::document::{DocumentState, DocumentView};
use crate::editor::{EditorModel, EditorView};
use crate::rope::line_count;
use crate::search::pop_last_char;
use crate::text::same_text;
use vstd::prelude::*;
use vstd::string::*;

verus! {

/// The keys that do something in the editor.
#[derive(Debug, Clone, Copy, PartialEq, Eq, Structural)]
pub enum EditorKey {
    Escape,
    Enter,
    Backspace,
    Delete,
    Left,
    Right,
    Up,
    Down,
    PageUp,
    PageDown,
    Find,
    FindAgain,
    Other,
}

/// A key with the keys that are held down, and what it types.
#[derive(Debug)]
pub struct Keystroke {
    pub key: String,
    pub platform: bool,
    pub control: bool,
    pub shift: bool,
    pub key_char: Option<String>,
}

/// What is left to do when a key has been handled.
#[derive(Debug, Clone, Copy, PartialEq, Eq, Structural)]
pub enum KeyOutcome {
    /// Nothing has changed.
    Ignored,
    /// There is something new to show.
    Shown,
    /// The view is to be scrolled by a page.
    PageUp,
    PageDown,
}

/// What `str::to_lowercase` makes of a text.
pub uninterp spec fn lower_case(text: Seq<char>) -> Seq<char>;

/// `str::to_lowercase` is a function of the characters. What it does to each of them is left
/// open.
#[verifier::external_body]
fn to_lower_case(text: &str) -> (lower: String)
    ensures
        lower@ == lower_case(text@),
{
    text.to_lowercase()
}

/// The key with a name in lower case.
pub open spec fn named_key(name: Seq<char>) -> EditorKey {
    if name == "escape"@ {
        EditorKey::Escape
    } else if name == "enter"@ || name == "return"@ {
        EditorKey::Enter
    } else if name == "backspace"@ {
        EditorKey::Backspace
    } else if name == "delete"@ {
        EditorKey::Delete
    } else if name == "left"@ || name == "arrowleft"@ {
        EditorKey::Left
    } else if name == "right"@ || name == "arrowright"@ {
        EditorKey::Right
    } else if name == "up"@ || name == "arrowup"@ {
        EditorKey::Up
    } else if name == "down"@ || name == "arrowdown"@ {
        EditorKey::Down
    } else if name == "pageup"@ {
        EditorKey::PageUp
    } else if name == "pagedown"@ {
        EditorKey::PageDown
    } else if name == "f"@ {
        EditorKey::Find
    } else if name == "g"@ {
        EditorKey::FindAgain
    } else {
        EditorKey::Other
    }
}

/// The key with a name in lower case.
pub fn key_named(name: &str) -> (key: EditorKey)
    ensures
        key == named_key(name@),
{
    if same_text(name, "escape") {
        EditorKey::Escape
    } else if same_text(name, "enter") || same_text(name, "return") {
        EditorKey::Enter
    } else if same_text(name, "backspace") {
        EditorKey::Backspace
    } else if same_text(name, "delete") {
        EditorKey::Delete
    } else if same_text(name, "left") || same_text(name, "arrowleft") {
        EditorKey::Left
    } else if same_text(name, "right") || same_text(name, "arrowright") {
        EditorKey::Right
    } else if same_text(name, "up") || same_text(name, "arrowup") {
        EditorKey::Up
    } else if same_text(name, "down") || same_text(name, "arrowdown") {
        EditorKey::Down
    } else if same_text(name, "pageup") {
        EditorKey::PageUp
    } else if same_text(name, "pagedown") {
        EditorKey::PageDown
    } else if same_text(name, "f") {
        EditorKey::Find
    } else if same_text(name, "g") {
        EditorKey::FindAgain
    } else {
        EditorKey::Other
    }
}

/// A key adds what it types to the query, unless that is a line break or nothing.
pub open spec fn types_query(key_char: Option<Seq<char>>) -> bool {
    key_char matches Some(raw) && raw.len() > 0 && raw != "\n"@ && raw != "\r"@
}

/// The characters of what a key types.
pub open spec fn typed(key_char: Option<String>) -> Option<Seq<char>> {
    match key_char {
        Some(raw) => Some(raw@),
        None => None,
    }
}

impl DocumentView {
    /// The document after a key that edits it or moves the cursor.
    pub open spec fn keyed(self, key: EditorKey, shift: bool) -> Self {
        match key {
            EditorKey::Backspace => self.backspace(),
            EditorKey::Delete => self.delete_forward(),
            EditorKey::Enter => self.type_text(seq!['\n']),
            EditorKey::Left => self.move_left(shift),
            EditorKey::Right => self.move_right(shift),
            EditorKey::Up => self.move_up(shift),
            EditorKey::Down => self.move_down(shift),
            _ => self,
        }
    }

    /// A key has something to do in the document.
    pub open spec fn answers(self, key: EditorKey) -> bool {
        match key {
            EditorKey::Backspace => self.selection is Some || (self.cursor > 0 && self.len() > 0),
            EditorKey::Delete => self.selection is Some || self.cursor < self.len(),
            EditorKey::Enter => true,
            EditorKey::Left => self.cursor > 0,
            EditorKey::Right => self.cursor < self.len(),
            EditorKey::Up => self.cursor_line() > 0,
            EditorKey::Down => self.cursor_line() + 1 < line_count(self.text),
            _ => false,
        }
    }
}

impl EditorModel {
    /// There is a match to go to.
    pub open spec fn finds(self, doc: DocumentView) -> bool {
        self.search_query.len() > 0 && self.found(doc).len() > 0
    }

    /// The editor and the document after a key in the find panel.
    pub open spec fn search_keyed(
        self,
        doc: DocumentView,
        key: EditorKey,
        cmd: bool,
        shift: bool,
        key_char: Option<Seq<char>>,
    ) -> (EditorModel, DocumentView) {
        if key == EditorKey::Escape {
            (self.close(), doc)
        } else if key == EditorKey::Enter {
            self.jump(doc, !shift)
        } else if key == EditorKey::Backspace {
            self.with_query(
                if self.search_query.len() == 0 {
                    self.search_query
                } else {
                    self.search_query.drop_last()
                },
            ).select_match(doc)
        } else if !cmd && types_query(key_char) {
            self.with_query(self.search_query + key_char->0).select_match(doc)
        } else {
            (self, doc)
        }
    }

    /// A key has something to do in the find panel.
    pub open spec fn search_answers(
        self,
        doc: DocumentView,
        key: EditorKey,
        cmd: bool,
        key_char: Option<Seq<char>>,
    ) -> bool {
        if key == EditorKey::Enter {
            self.finds(doc)
        } else {
            key == EditorKey::Escape || key == EditorKey::Backspace || (!cmd && types_query(
                key_char,
            ))
        }
    }

    /// The editor and the document after the command to find again.
    pub open spec fn find_again(self, doc: DocumentView, forward: bool) -> (
        EditorModel,
        DocumentView,
    ) {
        if self.search_active {
            self.jump(doc, forward)
        } else {
            self.activate(doc)
        }
    }

    /// The editor and the document after a key.
    pub open spec fn keyed(
        self,
        doc: DocumentView,
        key: EditorKey,
        cmd: bool,
        shift: bool,
        key_char: Option<Seq<char>>,
    ) -> (EditorModel, DocumentView) {
        if cmd && key == EditorKey::Find {
            self.activate(doc)
        } else if cmd && key == EditorKey::FindAgain {
            self.find_again(doc, !shift)
        } else if self.search_active {
            self.search_keyed(doc, key, cmd, shift, key_char)
        } else if cmd {
            (self, doc)
        } else {
            (self, doc.keyed(key, shift))
        }
    }

    /// What is left to do after a key.
    pub open spec fn outcome(
        self,
        doc: DocumentView,
        key: EditorKey,
        cmd: bool,
        key_char: Option<Seq<char>>,
    ) -> KeyOutcome {
        let shown = if cmd && key == EditorKey::Find {
            true
        } else if cmd && key == EditorKey::FindAgain {
            !self.search_active || self.finds(doc)
        } else if self.search_active {
            self.search_answers(doc, key, cmd, key_char)
        } else {
            !cmd && doc.answers(key)
        };
        if shown {
            KeyOutcome::Shown
        } else if !cmd && !self.search_active && key == EditorKey::PageUp {
            KeyOutcome::PageUp
        } else if !cmd && !self.search_active && key == EditorKey::PageDown {
            KeyOutcome::PageDown
        } else {
            KeyOutcome::Ignored
        }
    }
}

/// Edits the document or moves its cursor, as a key says. Returns whether there is something
/// new to show.
pub fn edit_key(doc: &mut DocumentState, key: EditorKey, shift: bool) -> (changed: bool)
    ensures
        final(doc)@ == old(doc)@.keyed(key, shift),
        changed == old(doc)@.answers(key),
{
    match key {
        EditorKey::Backspace => commands::backspace(doc),
        EditorKey::Delete => commands::delete_forward(doc),
        EditorKey::Enter => {
            commands::new_line(doc);
            true
        },
        EditorKey::Left => commands::move_left(doc, shift),
        EditorKey::Right => commands::move_right(doc, shift),
        EditorKey::Up => commands::move_up(doc, shift),
        EditorKey::Down => commands::move_down(doc, shift),
        _ => false,
    }
}

impl EditorView {
    /// Goes to the next match or back to the previous one, and opens the find panel where it
    /// is closed. Returns whether there is something new to show.
    pub fn find_again(&mut self, doc: &mut DocumentState, forward: bool) -> (shown: bool)
        requires
            old(self).wf(),
            old(self)@.can_seed(old(doc)@),
        ensures
            (final(self)@, final(doc)@) == old(self)@.find_again(old(doc)@, forward),
            shown == (!old(self)@.search_active || old(self)@.finds(old(doc)@)),
            final(self).wf(),
    {
        if self.search_active {
            self.jump_search(doc, forward)
        } else {
            self.activate_search(doc);
            true
        }
    }

    /// Handles a key in the find panel. Returns whether there is something new to show.
    pub fn handle_search_key(
        &mut self,
        doc: &mut DocumentState,
        key: EditorKey,
        is_cmd: bool,
        shift: bool,
        key_char: &Option<String>,
    ) -> (shown: bool)
        requires
            old(self).wf(),
        ensures
            (final(self)@, final(doc)@) == old(self)@.search_keyed(
                old(doc)@,
                key,
                is_cmd,
                shift,
                typed(*key_char),
            ),
            shown == old(self)@.search_answers(old(doc)@, key, is_cmd, typed(*key_char)),
            final(self).wf(),
    {
        if key == EditorKey::Escape {
            self.close_search();
            return true;
        }
        if key == EditorKey::Enter {
            return self.jump_search(doc, !shift);
        }
        if key == EditorKey::Backspace {
            pop_last_char(&mut self.search_query);
            self.search_current_match = 0;
            self.invalidate_search_cache();
            self.select_current_search_match(doc);
            return true;
        }
        if is_cmd {
            return false;
        }
        match key_char {
            Some(raw) => {
                let raw = raw.as_str();
                if !same_text(raw, "\n") && !same_text(raw, "\r") && !raw.is_empty() {
                    self.search_query.append(raw);
                    self.search_current_match = 0;
                    self.invalidate_search_cache();
                    self.select_current_search_match(doc);
                    return true;
                }
            },
            None => {},
        }
        false
    }

    /// Handles a key.
    pub fn key_down(
        &mut self,
        doc: &mut DocumentState,
        key: EditorKey,
        is_cmd: bool,
        shift: bool,
        key_char: &Option<String>,
    ) -> (outcome: KeyOutcome)
        requires
            old(self).wf(),
            old(self)@.can_seed(old(doc)@),
        ensures
            (final(self)@, final(doc)@) == old(self)@.keyed(
                old(doc)@,
                key,
                is_cmd,
                shift,
                typed(*key_char),
            ),
            outcome == old(self)@.outcome(old(doc)@, key, is_cmd, typed(*key_char)),
            final(self).wf(),
    {
        let shown = if is_cmd && key == EditorKey::Find {
            self.activate_search(doc);
            true
        } else if is_cmd && key == EditorKey::FindAgain {
            self.find_again(doc, !shift)
        } else if self.search_active {
            self.handle_search_key(doc, key, is_cmd, shift, key_char)
        } else if is_cmd {
            false
        } else if key == EditorKey::PageUp {
            return KeyOutcome::PageUp;
        } else if key == EditorKey::PageDown {
            return KeyOutcome::PageDown;
        } else {
            edit_key(doc, key, shift)
        };
        if shown {
            KeyOutcome::Shown
        } else {
            KeyOutcome::Ignored
        }
    }

    /// Handles a keystroke. The case of the key's name does not matter.
    pub fn on_key_down(&mut self, doc: &mut DocumentState, keystroke: &Keystroke) -> (outcome:
        KeyOutcome)
        requires
            old(self).wf(),
            old(self)@.can_seed(old(doc)@),
        ensures
            ({
                let key = named_key(lower_case(keystroke.key@));
                let cmd = keystroke.platform || keystroke.control;
                let key_char = typed(keystroke.key_char);
                &&& (final(self)@, final(doc)@) == old(self)@.keyed(
                    old(doc)@,
                    key,
                    cmd,
                    keystroke.shift,
                    key_char,
                )
                &&& outcome == old(self)@.outcome(old(doc)@, key, cmd, key_char)
            }),
            final(self).wf(),
    {
        let name = to_lower_case(keystroke.key.as_str());
        let is_cmd = keystroke.platform || keystroke.control;
        self.key_down(doc, key_named(name.as_str()), is_cmd, keystroke.shift, &keystroke.key_char)
    }
}

} // verus!
