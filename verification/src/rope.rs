//! The rope that holds a document, and what the operations on it do to its characters.
use crate::text::joined;
use ropey::Rope;
use std::collections::hash_map::DefaultHasher;
use std::hash::Hash;
use std::hash::Hasher;
use vstd::prelude::*;
use vstd::utf8::encode_utf8;

verus! {

#[verifier::external_type_specification]
#[verifier::external_body]
pub struct ExRope(ropey::Rope);

/// The characters that a rope holds, in order.
pub uninterp spec fn rope_chars(rope: Rope) -> Seq<char>;

/// The hash that `std`'s `DefaultHasher` gives a rope with these characters.
pub uninterp spec fn text_hash(chars: Seq<char>) -> u64;

/// The byte offset at which the character with the given index starts.
pub open spec fn byte_offset(chars: Seq<char>, index: int) -> int {
    encode_utf8(chars.take(index)).len() as int
}

/// The first character from `index` on that ends behind the given byte, or the number of
/// characters if there is none.
pub open spec fn char_at_byte_from(chars: Seq<char>, byte: int, index: int) -> int
    decreases chars.len() - index,
{
    if index >= chars.len() || byte < byte_offset(chars, index + 1) {
        index
    } else {
        char_at_byte_from(chars, byte, index + 1)
    }
}

/// The index of the character that the given byte belongs to.
pub open spec fn char_at_byte(chars: Seq<char>, byte: int) -> int {
    char_at_byte_from(chars, byte, 0)
}

/// The characters that end a line.
pub open spec fn is_line_break(c: char) -> bool {
    ||| '\u{a}' <= c <= '\u{d}'
    ||| c == '\u{85}'
    ||| c == '\u{2028}'
    ||| c == '\u{2029}'
}

/// A line break ends right before `index`. A carriage return and the line feed behind it are
/// one break.
pub open spec fn break_ends_at(chars: Seq<char>, index: int) -> bool {
    &&& 0 < index <= chars.len()
    &&& is_line_break(chars[index - 1])
    &&& !(chars[index - 1] == '\r' && index < chars.len() && chars[index] == '\n')
}

/// The number of line breaks before the character with the given index, which is the number
/// of its line.
pub open spec fn line_of(chars: Seq<char>, index: int) -> int
    decreases index,
{
    if index <= 0 {
        0
    } else {
        line_of(chars, index - 1) + if break_ends_at(chars, index) { 1int } else { 0 }
    }
}

/// The number of lines.
pub open spec fn line_count(chars: Seq<char>) -> int {
    line_of(chars, chars.len() as int) + 1
}

/// The first index from `index` on that is not before the given line.
pub open spec fn line_start_from(chars: Seq<char>, line: int, index: int) -> int
    decreases chars.len() - index,
{
    if index >= chars.len() || line_of(chars, index) >= line {
        index
    } else {
        line_start_from(chars, line, index + 1)
    }
}

/// The index at which a line starts; one past the last line, the number of characters.
pub open spec fn line_start(chars: Seq<char>, line: int) -> int {
    line_start_from(chars, line, 0)
}

/// `Rope::new` is a rope without characters.
#[verifier::external_body]
pub(crate) fn rope_new() -> (rope: Rope)
    ensures
        rope_chars(rope) == Seq::<char>::empty(),
{
    Rope::new()
}

/// `Rope::from_str` holds the characters of the string.
#[verifier::external_body]
pub(crate) fn rope_from_str(text: &str) -> (rope: Rope)
    ensures
        rope_chars(rope) == text@,
{
    Rope::from_str(text)
}

/// `Rope`'s `Clone` holds the same characters.
#[verifier::external_body]
pub(crate) fn rope_clone(rope: &Rope) -> (copy: Rope)
    ensures
        rope_chars(copy) == rope_chars(*rope),
{
    rope.clone()
}

/// `Rope::len_chars` counts the characters.
#[verifier::external_body]
pub(crate) fn rope_len_chars(rope: &Rope) -> (len: usize)
    ensures
        len == rope_chars(*rope).len(),
{
    rope.len_chars()
}

/// `Rope::len_bytes` counts the bytes of the UTF-8 encoding.
#[verifier::external_body]
pub(crate) fn rope_len_bytes(rope: &Rope) -> (len: usize)
    ensures
        len == encode_utf8(rope_chars(*rope)).len(),
{
    rope.len_bytes()
}

/// `Rope::char_to_byte` is the byte offset of a character. It panics behind the end.
#[verifier::external_body]
pub(crate) fn rope_char_to_byte(rope: &Rope, index: usize) -> (byte: usize)
    requires
        index <= rope_chars(*rope).len(),
    ensures
        byte == byte_offset(rope_chars(*rope), index as int),
{
    rope.char_to_byte(index)
}

/// `Rope::byte_to_char` is the index of the character that a byte belongs to. It panics
/// behind the end.
#[verifier::external_body]
pub(crate) fn rope_byte_to_char(rope: &Rope, byte: usize) -> (index: usize)
    requires
        byte <= encode_utf8(rope_chars(*rope)).len(),
    ensures
        index == char_at_byte(rope_chars(*rope), byte as int),
{
    rope.byte_to_char(byte)
}

/// `Rope::insert` puts the characters of the string before the one with the given index. It
/// panics behind the end.
#[verifier::external_body]
pub(crate) fn rope_insert(rope: &mut Rope, index: usize, text: &str)
    requires
        index <= rope_chars(*old(rope)).len(),
    ensures
        rope_chars(*final(rope)) == rope_chars(*old(rope)).take(index as int) + text@
            + rope_chars(*old(rope)).skip(index as int),
{
    rope.insert(index, text)
}

/// `Rope::remove` takes a range of characters out. It panics where the range does not lie
/// inside the rope.
#[verifier::external_body]
pub(crate) fn rope_remove(rope: &mut Rope, start: usize, end: usize)
    requires
        start <= end <= rope_chars(*old(rope)).len(),
    ensures
        rope_chars(*final(rope)) == rope_chars(*old(rope)).take(start as int) + rope_chars(
            *old(rope),
        ).skip(end as int),
{
    rope.remove(start..end)
}

/// `Rope::slice` is the range of characters, which `to_string` copies. It panics where the
/// range does not lie inside the rope.
#[verifier::external_body]
pub(crate) fn rope_slice(rope: &Rope, start: usize, end: usize) -> (text: String)
    requires
        start <= end <= rope_chars(*rope).len(),
    ensures
        text@ == rope_chars(*rope).subrange(start as int, end as int),
{
    rope.slice(start..end).to_string()
}

/// `Rope`'s `Display` writes out its characters.
#[verifier::external_body]
pub(crate) fn rope_to_string(rope: &Rope) -> (text: String)
    ensures
        text@ == rope_chars(*rope),
{
    rope.to_string()
}

/// `Rope::chars` iterates over the characters.
#[verifier::external_body]
pub(crate) fn rope_to_chars(rope: &Rope) -> (chars: Vec<char>)
    ensures
        chars@ == rope_chars(*rope),
{
    rope.chars().collect()
}

/// `Rope::chunks` iterates over the strings that make up the rope. How the rope is cut into
/// them is left open.
#[verifier::external_body]
pub(crate) fn rope_chunks(rope: &Rope) -> (chunks: Vec<&str>)
    ensures
        joined(chunks@) == rope_chars(*rope),
{
    rope.chunks().collect()
}

/// `Rope::len_lines` counts the lines.
#[verifier::external_body]
pub(crate) fn rope_len_lines(rope: &Rope) -> (lines: usize)
    ensures
        lines == line_count(rope_chars(*rope)),
{
    rope.len_lines()
}

/// `Rope::char_to_line` counts the line breaks before a character. It panics behind the end.
#[verifier::external_body]
pub(crate) fn rope_char_to_line(rope: &Rope, index: usize) -> (line: usize)
    requires
        index <= rope_chars(*rope).len(),
    ensures
        line == line_of(rope_chars(*rope), index as int),
{
    rope.char_to_line(index)
}

/// `Rope::line_to_char` is the index at which a line starts. It panics behind the line one
/// past the last.
#[verifier::external_body]
pub(crate) fn rope_line_to_char(rope: &Rope, line: usize) -> (index: usize)
    requires
        line <= line_count(rope_chars(*rope)),
    ensures
        index == line_start(rope_chars(*rope), line as int),
{
    rope.line_to_char(line)
}

/// `Rope::line` is a line with the break that ends it, whose `len_chars` counts its
/// characters. It panics behind the last line.
#[verifier::external_body]
pub(crate) fn rope_line_len(rope: &Rope, line: usize) -> (len: usize)
    requires
        line < line_count(rope_chars(*rope)),
    ensures
        len == line_start(rope_chars(*rope), line + 1) - line_start(rope_chars(*rope), line as int),
{
    rope.line(line).len_chars()
}

/// `Rope`'s `Hash` feeds the bytes of the text to the hasher in blocks that do not depend on
/// how the rope is cut into chunks, and `DefaultHasher::new` is the same for every call.
#[verifier::external_body]
pub(crate) fn rope_hash(rope: &Rope) -> (hash: u64)
    ensures
        hash == text_hash(rope_chars(*rope)),
{
    let mut hasher = DefaultHasher::new();
    rope.hash(&mut hasher);
    hasher.finish()
}

} // verus!
