//! Positions that are counted in UTF-16 code units, as platform text input counts them.
use crate::document::DocumentState;
use crate::rope::rope_to_chars;
use crate::text::chars_of;
use crate::text::encode_utf8_of_push;
use crate::undo::clamped;
use std::ops::Range;
use vstd::prelude::*;
use vstd::utf8::{encode_scalar, encode_utf8};

verus! {

/// The number of UTF-16 code units that a character takes up.
pub open spec fn utf16_width(c: char) -> nat {
    if c <= '\u{ffff}' {
        1
    } else {
        2
    }
}

/// The number of UTF-16 code units that a text takes up.
pub open spec fn utf16_len(text: Seq<char>) -> nat
    decreases text.len(),
{
    if text.len() == 0 {
        0
    } else {
        utf16_len(text.drop_last()) + utf16_width(text.last())
    }
}

/// The number of code units before the character with the given index, or of all of them.
pub open spec fn utf16_of(text: Seq<char>, index: int) -> nat {
    utf16_len(text.take(clamped(index, text.len() as int)))
}

/// The first character from `index` on that ends behind the given number of code units, or the
/// number of characters if there is none.
pub open spec fn char_at_utf16_from(text: Seq<char>, offset: int, index: int) -> int
    decreases text.len() - index,
{
    if index >= text.len() || offset < utf16_len(text.take(index + 1)) {
        index
    } else {
        char_at_utf16_from(text, offset, index + 1)
    }
}

/// The number of characters that the given number of code units holds in full.
pub open spec fn char_at_utf16(text: Seq<char>, offset: int) -> int {
    char_at_utf16_from(text, offset, 0)
}

/// The range of code units that a range of characters takes up.
pub open spec fn utf16_range(text: Seq<char>, range: Range<usize>) -> Range<usize> {
    Range {
        start: utf16_of(text, range.start as int) as usize,
        end: utf16_of(text, range.end as int) as usize,
    }
}

/// The range of characters that a range of code units holds. It does not end before it starts.
pub open spec fn chars_at_utf16(text: Seq<char>, range: Range<usize>) -> Range<usize> {
    let start = char_at_utf16(text, range.start as int);
    let end = char_at_utf16(text, range.end as int);
    Range {
        start: start as usize,
        end: if end < start {
            start as usize
        } else {
            end as usize
        },
    }
}

/// No character takes up more UTF-16 code units than UTF-8 bytes.
proof fn utf16_width_and_utf8_width(c: char)
    ensures
        utf16_width(c) <= encode_scalar(c as u32).len(),
{
}

/// No text takes up more UTF-16 code units than UTF-8 bytes.
pub proof fn utf16_is_not_longer_than_utf8(text: Seq<char>)
    ensures
        utf16_len(text) <= encode_utf8(text).len(),
    decreases text.len(),
{
    if text.len() > 0 {
        let c = text.last();
        utf16_is_not_longer_than_utf8(text.drop_last());
        encode_utf8_of_push(text.drop_last(), c);
        assert(text.drop_last().push(c) =~= text);
        utf16_width_and_utf8_width(c);
    }
}

/// One more character takes up one or two more code units.
proof fn utf16_of_next(text: Seq<char>, index: int)
    requires
        0 <= index < text.len(),
    ensures
        utf16_len(text.take(index + 1)) == utf16_len(text.take(index)) + utf16_width(text[index]),
{
    assert(text.take(index + 1).drop_last() =~= text.take(index));
}

/// Characters further behind have more code units before them.
pub proof fn utf16_grows(text: Seq<char>, first: int, second: int)
    requires
        0 <= first < second <= text.len(),
    ensures
        utf16_len(text.take(first)) < utf16_len(text.take(second)),
    decreases second - first,
{
    utf16_of_next(text, second - 1);
    if first < second - 1 {
        utf16_grows(text, first, second - 1);
    }
}

/// The search for a character passes over those that end before it.
proof fn char_at_utf16_passes(text: Seq<char>, offset: int, from: int, index: int)
    requires
        0 <= from <= index <= text.len(),
        utf16_len(text.take(index)) <= offset,
        index < text.len() ==> offset < utf16_len(text.take(index + 1)),
    ensures
        char_at_utf16_from(text, offset, from) == index,
    decreases index - from,
{
    if from < index {
        if from + 1 < index {
            utf16_grows(text, from + 1, index);
        }
        char_at_utf16_passes(text, offset, from + 1, index);
    }
}

/// Going from a character to code units and back gives the character. So does going back from
/// the middle of a surrogate pair.
pub proof fn char_to_utf16_and_back(text: Seq<char>, index: int, offset: int)
    requires
        0 <= index <= text.len(),
        utf16_of(text, index) <= offset,
        index < text.len() ==> offset < utf16_of(text, index + 1),
    ensures
        char_at_utf16(text, utf16_of(text, index) as int) == index,
        char_at_utf16(text, offset) == index,
{
    if index < text.len() {
        utf16_grows(text, index, index + 1);
    }
    char_at_utf16_passes(text, utf16_of(text, index) as int, 0, index);
    char_at_utf16_passes(text, offset, 0, index);
}

/// A character that is found for an offset is one of the text, or the end.
proof fn char_at_utf16_bounds(text: Seq<char>, offset: int, from: int)
    requires
        0 <= from <= text.len(),
    ensures
        from <= char_at_utf16_from(text, offset, from) <= text.len(),
    decreases text.len() - from,
{
    if from < text.len() {
        char_at_utf16_bounds(text, offset, from + 1);
    }
}

/// A range of code units holds a range of characters of the text.
pub proof fn chars_at_utf16_lie_inside(text: Seq<char>, range: Range<usize>)
    requires
        text.len() <= usize::MAX,
    ensures
        chars_at_utf16(text, range).start <= chars_at_utf16(text, range).end <= text.len(),
{
    char_at_utf16_bounds(text, range.start as int, 0);
    char_at_utf16_bounds(text, range.end as int, 0);
}

fn width(c: char) -> (units: usize)
    ensures
        units == utf16_width(c),
{
    if c <= '\u{ffff}' {
        1
    } else {
        2
    }
}

/// Counts the code units of the first characters.
fn units_before(chars: &[char], count: usize) -> (units: usize)
    requires
        count <= chars@.len(),
        encode_utf8(chars@).len() <= usize::MAX,
    ensures
        units == utf16_len(chars@.take(count as int)),
{
    let mut units: usize = 0;
    let mut i: usize = 0;
    proof {
        assert(chars@.take(chars@.len() as int) =~= chars@);
        utf16_is_not_longer_than_utf8(chars@);
    }
    while i < count
        invariant
            i <= count <= chars@.len(),
            utf16_len(chars@.take(chars@.len() as int)) <= usize::MAX,
            units == utf16_len(chars@.take(i as int)),
        decreases count - i,
    {
        proof {
            utf16_of_next(chars@, i as int);
            if i + 1 < chars@.len() {
                utf16_grows(chars@, i + 1, chars@.len() as int);
            }
        }
        units = units + width(chars[i]);
        i = i + 1;
    }
    units
}

/// Counts the characters that the given number of code units holds in full.
fn chars_within(chars: &[char], offset: usize) -> (count: usize)
    requires
        encode_utf8(chars@).len() <= usize::MAX,
    ensures
        count == char_at_utf16(chars@, offset as int),
        count <= chars@.len(),
{
    let mut units: usize = 0;
    let mut count: usize = 0;
    proof {
        assert(chars@.take(chars@.len() as int) =~= chars@);
        utf16_is_not_longer_than_utf8(chars@);
    }
    while count < chars.len()
        invariant
            count <= chars@.len(),
            utf16_len(chars@.take(chars@.len() as int)) <= usize::MAX,
            units == utf16_len(chars@.take(count as int)),
            char_at_utf16_from(chars@, offset as int, count as int) == char_at_utf16(
                chars@,
                offset as int,
            ),
        decreases chars@.len() - count,
    {
        proof {
            utf16_of_next(chars@, count as int);
            if count + 1 < chars@.len() {
                utf16_grows(chars@, count + 1, chars@.len() as int);
            }
        }
        let next = units + width(chars[count]);
        if next > offset {
            return count;
        }
        units = next;
        count = count + 1;
    }
    count
}

/// The number of UTF-16 code units before a character of the document.
pub fn char_index_to_utf16(doc: &DocumentState, char_index: usize) -> (units: usize)
    ensures
        units == utf16_of(doc@.text, char_index as int),
{
    // The code units are not more than the bytes.
    let _bytes = doc.len_bytes();
    let chars = rope_to_chars(&doc.rope);
    let count = if char_index <= chars.len() {
        char_index
    } else {
        chars.len()
    };
    units_before(chars.as_slice(), count)
}

/// The character of the document that the given number of UTF-16 code units reaches. One that
/// ends inside a surrogate pair does not reach the character behind it.
pub fn utf16_to_char_index(doc: &DocumentState, utf16_offset: usize) -> (index: usize)
    ensures
        index == char_at_utf16(doc@.text, utf16_offset as int),
{
    // The code units are not more than the bytes.
    let _bytes = doc.len_bytes();
    let chars = rope_to_chars(&doc.rope);
    chars_within(chars.as_slice(), utf16_offset)
}

/// A range of characters of the document in UTF-16 code units.
pub fn char_range_to_utf16(doc: &DocumentState, range: &Range<usize>) -> (units: Range<usize>)
    ensures
        units == utf16_range(doc@.text, *range),
{
    let start = char_index_to_utf16(doc, range.start);
    let end = char_index_to_utf16(doc, range.end);
    start..end
}

/// A range of UTF-16 code units of the document in characters.
pub fn utf16_range_to_chars(doc: &DocumentState, range: &Range<usize>) -> (chars: Range<usize>)
    ensures
        chars == chars_at_utf16(doc@.text, *range),
        chars.start <= chars.end <= doc@.text.len(),
{
    let len = doc.len_chars();
    proof {
        chars_at_utf16_lie_inside(doc@.text, *range);
    }
    let start = utf16_to_char_index(doc, range.start);
    let end = utf16_to_char_index(doc, range.end);
    if end < start {
        start..start
    } else {
        start..end
    }
}

/// The character of a string that the given number of UTF-16 code units reaches.
pub fn utf16_offset_to_char_in_str(text: &str, utf16_offset: usize) -> (index: usize)
    ensures
        index == char_at_utf16(text@, utf16_offset as int),
        index <= text@.len(),
{
    let _bytes = text.as_bytes().len();
    let chars = chars_of(text);
    chars_within(chars.as_slice(), utf16_offset)
}

} // verus!
