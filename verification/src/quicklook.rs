//! The text that is handed to Quick Look, which takes strings that a NUL ends.
use crate::text::replace_char;
use crate::text::{replaced, replaced_contains};
use vstd::prelude::*;

verus! {

/// A text in which the replacement character stands for every NUL.
pub open spec fn nul_free(text: Seq<char>) -> Seq<char> {
    replaced(text, '\0', "\u{fffd}"@)
}

/// The text of a rendered document without NULs.
pub fn without_nul(html: &str) -> (text: String)
    ensures
        text@ == nul_free(html@),
        !text@.contains('\0'),
        !html@.contains('\0') ==> text@ == html@,
{
    proof {
        reveal_strlit("\u{fffd}");
        if nul_free(html@).contains('\0') {
            replaced_contains(html@, '\0', "\u{fffd}"@, '\0');
            let k = choose|k: int| 0 <= k < "\u{fffd}"@.len() && "\u{fffd}"@[k] == '\0';
            assert("\u{fffd}"@[k] == '\0');
        }
        if !html@.contains('\0') {
            nothing_is_replaced(html@, '\0', "\u{fffd}"@);
        }
    }
    replace_char(html, '\0', "\u{fffd}")
}

/// A text without a character stays as it is when the character is replaced.
proof fn nothing_is_replaced(text: Seq<char>, from: char, to: Seq<char>)
    requires
        !text.contains(from),
    ensures
        replaced(text, from, to) == text,
    decreases text.len(),
{
    if text.len() > 0 {
        let rest = text.drop_last();
        assert(!rest.contains(from)) by {
            if rest.contains(from) {
                let k = choose|k: int| 0 <= k < rest.len() && rest[k] == from;
                assert(text[k] == from);
            }
        }
        nothing_is_replaced(rest, from, to);
        assert(text[text.len() - 1] != from);
        assert(replaced(text, from, to) =~= text);
    } else {
        assert(replaced(text, from, to) =~= text);
    }
}

} // verus!
