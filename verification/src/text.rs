//! Characters, words and encodings.
use vstd::prelude::*;
use vstd::string::*;
use vstd::utf8::{encode_scalar, encode_utf8};

verus! {

/// `String::push` appends one character.
pub assume_specification[ String::push ](s: &mut String, ch: char)
    ensures
        final(s)@ == old(s)@.push(ch),
;

/// The characters of a string, in order.
pub fn chars_of(text: &str) -> (chars: Vec<char>)
    ensures
        chars@ == text@,
{
    let mut chars: Vec<char> = Vec::new();
    for c in it: text.chars()
        invariant
            chars@ == it.seq().take(it.index() as int),
            it.seq() == text@,
    {
        chars.push(c);
    }
    chars
}

/// The string that holds the given characters.
pub fn string_of(chars: &[char]) -> (text: String)
    ensures
        text@ == chars@,
{
    let mut text = String::new();
    let mut i: usize = 0;
    while i < chars.len()
        invariant
            i <= chars.len(),
            text@ == chars@.take(i as int),
        decreases chars.len() - i,
    {
        text.push(chars[i]);
        i = i + 1;
    }
    text
}

/// Whether two strings hold the same characters.
pub fn same_text(first: &str, second: &str) -> (same: bool)
    ensures
        same == (first@ == second@),
{
    let a = chars_of(first);
    let b = chars_of(second);
    if a.len() != b.len() {
        return false;
    }
    let mut i: usize = 0;
    while i < a.len()
        invariant
            i <= a@.len(),
            a@ == first@,
            b@ == second@,
            a@.len() == b@.len(),
            forall|k: int| 0 <= k < i ==> a@[k] == b@[k],
        decreases a@.len() - i,
    {
        if a[i] != b[i] {
            assert(first@[i as int] != second@[i as int]);
            return false;
        }
        i = i + 1;
    }
    assert(a@ =~= b@);
    true
}

/// Whether a string holds a character.
pub fn has_char(text: &str, wanted: char) -> (has: bool)
    ensures
        has == text@.contains(wanted),
{
    for c in it: text.chars()
        invariant
            it.seq() == text@,
            forall|k: int| 0 <= k < it.index() ==> text@[k] != wanted,
    {
        if c == wanted {
            assert(text@[it.index() as int] == wanted);
            return true;
        }
    }
    false
}

/// The characters with Unicode's `White_Space` property.
pub open spec fn is_white_space(c: char) -> bool {
    ||| '\u{9}' <= c <= '\u{d}'
    ||| c == '\u{20}'
    ||| c == '\u{85}'
    ||| c == '\u{a0}'
    ||| c == '\u{1680}'
    ||| '\u{2000}' <= c <= '\u{200a}'
    ||| c == '\u{2028}'
    ||| c == '\u{2029}'
    ||| c == '\u{202f}'
    ||| c == '\u{205f}'
    ||| c == '\u{3000}'
}

/// Whether a character is white space.
pub fn white_space(c: char) -> (is: bool)
    ensures
        is == is_white_space(c),
{
    ('\u{9}' <= c && c <= '\u{d}') || c == '\u{20}' || c == '\u{85}' || c == '\u{a0}' || c
        == '\u{1680}' || ('\u{2000}' <= c && c <= '\u{200a}') || c == '\u{2028}' || c
        == '\u{2029}' || c == '\u{202f}' || c == '\u{205f}' || c == '\u{3000}'
}

/// A text of nothing but white space.
pub open spec fn is_blank(text: Seq<char>) -> bool {
    forall|i: int| 0 <= i < text.len() ==> is_white_space(#[trigger] text[i])
}

/// Whether a string is nothing but white space.
pub fn blank(text: &str) -> (is: bool)
    ensures
        is == is_blank(text@),
{
    for c in it: text.chars()
        invariant
            it.seq() == text@,
            forall|k: int| 0 <= k < it.index() ==> is_white_space(#[trigger] text@[k]),
    {
        if !white_space(c) {
            assert(!is_white_space(text@[it.index() as int]));
            return false;
        }
    }
    true
}

/// A text without the white space at its start.
pub open spec fn trimmed_start(text: Seq<char>) -> Seq<char>
    decreases text.len(),
{
    if text.len() > 0 && is_white_space(text[0]) {
        trimmed_start(text.drop_first())
    } else {
        text
    }
}

/// A text without the white space at its end.
pub open spec fn trimmed_end(text: Seq<char>) -> Seq<char>
    decreases text.len(),
{
    if text.len() > 0 && is_white_space(text.last()) {
        trimmed_end(text.drop_last())
    } else {
        text
    }
}

/// A text without the white space around it.
pub open spec fn trimmed(text: Seq<char>) -> Seq<char> {
    trimmed_end(trimmed_start(text))
}

/// A text without the white space at its start does not start with any.
proof fn trimmed_start_starts_with_text(text: Seq<char>)
    ensures
        trimmed_start(text).len() > 0 ==> !is_white_space(trimmed_start(text)[0]),
    decreases text.len(),
{
    if text.len() > 0 && is_white_space(text[0]) {
        trimmed_start_starts_with_text(text.drop_first());
    }
}

/// A text without the white space at its end is a start of it, and does not end with any.
proof fn trimmed_end_ends_with_text(text: Seq<char>)
    ensures
        trimmed_end(text).len() <= text.len(),
        trimmed_end(text) == text.take(trimmed_end(text).len() as int),
        trimmed_end(text).len() > 0 ==> !is_white_space(trimmed_end(text).last()),
    decreases text.len(),
{
    if text.len() > 0 && is_white_space(text.last()) {
        let rest = text.drop_last();
        trimmed_end_ends_with_text(rest);
        let len = trimmed_end(rest).len() as int;
        assert(rest.take(len) =~= text.take(len));
    } else {
        assert(text.take(text.len() as int) =~= text);
    }
}

/// There is no white space left around a text that it has been taken from.
pub proof fn trimming_once_is_enough(text: Seq<char>)
    ensures
        trimmed(trimmed(text)) == trimmed(text),
{
    let inner = trimmed(text);
    trimmed_start_starts_with_text(text);
    trimmed_end_ends_with_text(trimmed_start(text));
    if inner.len() > 0 {
        assert(inner[0] == trimmed_start(text)[0]);
    }
}

/// The string without the white space around it.
pub fn trim(text: &str) -> (inner: String)
    ensures
        inner@ == trimmed(text@),
{
    let chars = chars_of(text);
    let mut start: usize = 0;
    let ghost all = text@;
    proof {
        assert(all.skip(0) =~= all);
    }
    while start < chars.len() && white_space(chars[start])
        invariant
            start <= chars@.len(),
            chars@ == all,
            trimmed_start(all.skip(start as int)) == trimmed_start(all),
        decreases chars@.len() - start,
    {
        proof {
            assert(all.skip(start as int).drop_first() =~= all.skip(start + 1));
        }
        start = start + 1;
    }
    let mut inner: Vec<char> = Vec::new();
    let mut i: usize = start;
    while i < chars.len()
        invariant
            start <= i <= chars@.len(),
            chars@ == all,
            inner@ == all.subrange(start as int, i as int),
        decreases chars@.len() - i,
    {
        inner.push(chars[i]);
        i = i + 1;
    }
    assert(inner@ =~= all.skip(start as int));
    assert(trimmed_start(all) == all.skip(start as int));
    while inner.len() > 0 && white_space(inner[inner.len() - 1])
        invariant
            trimmed_end(inner@) == trimmed(all),
        decreases inner@.len(),
    {
        inner.pop();
    }
    string_of(inner.as_slice())
}

/// A text with every occurrence of a character replaced.
pub open spec fn replaced(text: Seq<char>, from: char, to: Seq<char>) -> Seq<char>
    decreases text.len(),
{
    if text.len() == 0 {
        Seq::empty()
    } else {
        replaced(text.drop_last(), from, to) + if text.last() == from {
            to
        } else {
            seq![text.last()]
        }
    }
}

/// Replaces every occurrence of a character in a string.
pub fn replace_char(text: &str, from: char, to: &str) -> (new_text: String)
    ensures
        new_text@ == replaced(text@, from, to@),
{
    let mut new_text = String::new();
    let ghost all = text@;
    for c in it: text.chars()
        invariant
            it.seq() == all,
            new_text@ == replaced(all.take(it.index() as int), from, to@),
    {
        proof {
            let k = it.index() as int;
            assert(all.take(k + 1).drop_last() =~= all.take(k));
            assert(all.take(k + 1).last() == c);
        }
        let ghost before = new_text@;
        if c == from {
            new_text.append(to);
        } else {
            new_text.push(c);
            assert(new_text@ =~= before + seq![c]);
        }
    }
    assert(all.take(all.len() as int) =~= all);
    new_text
}

/// Replacing goes character by character.
pub proof fn replaced_of_concat(first: Seq<char>, second: Seq<char>, from: char, to: Seq<char>)
    ensures
        replaced(first + second, from, to) == replaced(first, from, to) + replaced(
            second,
            from,
            to,
        ),
    decreases second.len(),
{
    if second.len() == 0 {
        assert(first + second =~= first);
        assert(replaced(first, from, to) + replaced(second, from, to) =~= replaced(
            first,
            from,
            to,
        ));
    } else {
        assert((first + second).drop_last() =~= first + second.drop_last());
        replaced_of_concat(first, second.drop_last(), from, to);
        assert(replaced(first + second, from, to) =~= replaced(first, from, to) + replaced(
            second,
            from,
            to,
        ));
    }
}

/// A text that characters are replaced in holds no others than before and the new ones.
pub proof fn replaced_contains(text: Seq<char>, from: char, to: Seq<char>, c: char)
    requires
        replaced(text, from, to).contains(c),
    ensures
        to.contains(c) || (text.contains(c) && c != from),
    decreases text.len(),
{
    if text.len() > 0 {
        let rest = text.drop_last();
        let before = replaced(rest, from, to);
        let after = replaced(text, from, to);
        let k = choose|k: int| 0 <= k < after.len() && after[k] == c;
        if k < before.len() {
            assert(before[k] == c);
            replaced_contains(rest, from, to, c);
            if rest.contains(c) {
                let j = choose|j: int| 0 <= j < rest.len() && rest[j] == c;
                assert(text[j] == c);
            }
        } else if text.last() == from {
            assert(to[k - before.len()] == c);
        } else {
            assert(text[text.len() - 1] == c);
        }
    }
}

/// A text starts with another.
pub open spec fn has_prefix(text: Seq<char>, prefix: Seq<char>) -> bool {
    prefix.len() <= text.len() && text.take(prefix.len() as int) == prefix
}

/// Whether a string starts with another.
pub fn starts_with(text: &str, prefix: &str) -> (starts: bool)
    ensures
        starts == has_prefix(text@, prefix@),
{
    let a = chars_of(text);
    let b = chars_of(prefix);
    if b.len() > a.len() {
        return false;
    }
    let mut i: usize = 0;
    while i < b.len()
        invariant
            i <= b@.len() <= a@.len(),
            a@ == text@,
            b@ == prefix@,
            forall|k: int| 0 <= k < i ==> a@[k] == b@[k],
        decreases b@.len() - i,
    {
        if a[i] != b[i] {
            assert(text@.take(prefix@.len() as int)[i as int] != prefix@[i as int]);
            return false;
        }
        i = i + 1;
    }
    assert(text@.take(prefix@.len() as int) =~= prefix@);
    true
}

/// A digit as a character.
pub open spec fn digit(value: int) -> char {
    (48 + value) as char
}

/// A number in decimal notation.
pub open spec fn decimal(value: nat) -> Seq<char>
    decreases value,
{
    if value < 10 {
        seq![digit(value as int)]
    } else {
        decimal(value / 10).push(digit((value % 10) as int))
    }
}

/// Writes a number in decimal notation.
pub fn to_decimal(value: u32) -> (text: String)
    ensures
        text@ == decimal(value as nat),
    decreases value,
{
    let last = ((48 + value % 10) as u8) as char;
    if value < 10 {
        let mut text = String::new();
        text.push(last);
        assert(text@ =~= seq![digit(value as int)]);
        text
    } else {
        let mut text = to_decimal(value / 10);
        text.push(last);
        text
    }
}

/// Numbers with the same notation are the same.
pub proof fn decimals_are_unique(first: nat, second: nat)
    requires
        decimal(first) == decimal(second),
    ensures
        first == second,
    decreases first,
{
    decimal_has_digits(first);
    decimal_has_digits(second);
    let a = decimal(first).last();
    let b = decimal(second).last();
    if first < 10 {
        if second >= 10 {
            decimal_has_digits(second / 10);
        }
    } else {
        if second < 10 {
            decimal_has_digits(first / 10);
        } else {
            assert(decimal(first).drop_last() =~= decimal(first / 10));
            assert(decimal(second).drop_last() =~= decimal(second / 10));
            decimals_are_unique(first / 10, second / 10);
        }
    }
}

/// A number has at least one digit, and its last digit is its remainder by ten.
proof fn decimal_has_digits(value: nat)
    ensures
        decimal(value).len() >= 1,
        decimal(value).last() as int == 48 + value % 10,
    decreases value,
{
    if value >= 10 {
        decimal_has_digits(value / 10);
    }
}

/// A word starts at the given index.
pub open spec fn word_starts_at(text: Seq<char>, index: int) -> bool {
    &&& !is_white_space(text[index])
    &&& index == 0 || is_white_space(text[index - 1])
}

/// The number of words: the runs of characters that are no white space.
pub open spec fn word_count(text: Seq<char>) -> nat
    decreases text.len(),
{
    if text.len() == 0 {
        0
    } else {
        word_count(text.drop_last()) + if word_starts_at(text, text.len() - 1) {
            1nat
        } else {
            0
        }
    }
}

/// The strings, one behind the other.
pub open spec fn joined(chunks: Seq<&str>) -> Seq<char>
    decreases chunks.len(),
{
    if chunks.len() == 0 {
        Seq::empty()
    } else {
        joined(chunks.drop_last()) + chunks.last()@
    }
}

/// A text has no more words than characters.
pub proof fn word_count_bounded(text: Seq<char>)
    ensures
        word_count(text) <= text.len(),
    decreases text.len(),
{
    if text.len() > 0 {
        word_count_bounded(text.drop_last());
    }
}

/// A text has at least as many characters as one of its starts.
proof fn joined_take_len(chunks: Seq<&str>, count: int)
    requires
        0 <= count <= chunks.len(),
    ensures
        joined(chunks.take(count)).len() <= joined(chunks).len(),
    decreases chunks.len() - count,
{
    if count < chunks.len() {
        joined_take_len(chunks, count + 1);
        assert(chunks.take(count + 1).drop_last() =~= chunks.take(count));
    } else {
        assert(chunks.take(count) =~= chunks);
    }
}

/// Counts the words of a text that is given in pieces. A word that runs from one piece into
/// the next counts once.
pub fn count_words(chunks: &Vec<&str>) -> (count: usize)
    requires
        joined(chunks@).len() <= usize::MAX,
    ensures
        count == word_count(joined(chunks@)),
{
    let mut count: usize = 0;
    let mut after_space = true;
    let mut i: usize = 0;
    while i < chunks.len()
        invariant
            i <= chunks.len(),
            joined(chunks@).len() <= usize::MAX,
            count == word_count(joined(chunks@.take(i as int))),
            after_space == ({
                let text = joined(chunks@.take(i as int));
                text.len() == 0 || is_white_space(text.last())
            }),
        decreases chunks.len() - i,
    {
        let ghost before = joined(chunks@.take(i as int));
        let ghost chunk = chunks@[i as int]@;
        proof {
            assert(chunks@.take(i + 1).drop_last() =~= chunks@.take(i as int));
            assert(joined(chunks@.take(i + 1)) == before + chunk);
            joined_take_len(chunks@, i + 1);
            assert(before + chunk.take(0) =~= before);
        }
        let piece = chunks[i];
        for c in it: piece.chars()
            invariant
                it.seq() == chunk,
                before.len() + chunk.len() <= usize::MAX,
                count == word_count(before + chunk.take(it.index() as int)),
                after_space == ({
                    let text = before + chunk.take(it.index() as int);
                    text.len() == 0 || is_white_space(text.last())
                }),
        {
            let ghost k = it.index() as int;
            let space = white_space(c);
            proof {
                let text = before + chunk.take(k + 1);
                assert(text.drop_last() =~= before + chunk.take(k));
                assert(text.last() == c);
                word_count_bounded(before + chunk.take(k));
            }
            if !space && after_space {
                count = count + 1;
            }
            after_space = space;
        }
        proof {
            assert(chunk.take(chunk.len() as int) =~= chunk);
        }
        i = i + 1;
    }
    proof {
        assert(chunks@.take(i as int) =~= chunks@);
    }
    count
}

/// The UTF-8 encoding of a text goes character by character.
pub proof fn encode_utf8_of_concat(first: Seq<char>, second: Seq<char>)
    ensures
        encode_utf8(first + second) == encode_utf8(first) + encode_utf8(second),
    decreases first.len(),
{
    if first.len() == 0 {
        assert(first + second =~= second);
    } else {
        assert((first + second).drop_first() =~= first.drop_first() + second);
        encode_utf8_of_concat(first.drop_first(), second);
        assert(encode_utf8(first + second) =~= encode_utf8(first) + encode_utf8(second));
    }
}

/// One more character is encoded in one to four more bytes.
pub proof fn encode_utf8_of_push(text: Seq<char>, c: char)
    ensures
        encode_utf8(text.push(c)) == encode_utf8(text) + encode_scalar(c as u32),
        1 <= encode_scalar(c as u32).len() <= 4,
{
    let one = seq![c];
    assert(text.push(c) =~= text + one);
    encode_utf8_of_concat(text, one);
    assert(one.drop_first() =~= Seq::<char>::empty());
    assert(encode_utf8(one) =~= encode_scalar(c as u32)) by {
        reveal_with_fuel(encode_utf8, 2);
    }
}

} // verus!
