//! What holds of white space, words, numbers and replacements in a text.
use crate::text::{
    decimal, has_prefix, is_blank, is_white_space, replaced, trimmed, trimmed_end, trimmed_start,
    word_count,
};
use vstd::prelude::*;

verus! {

/// The code points of white space: the controls that break lines and columns, the space, and the
/// spaces and separators of other scripts.
pub proof fn white_space_is_known_by_code_point(c: char)
    ensures
        is_white_space(c) <==> {
            let point = c as u32;
            ||| 0x9 <= point <= 0xd
            ||| point == 0x20
            ||| point == 0x85
            ||| point == 0xa0
            ||| point == 0x1680
            ||| 0x2000 <= point <= 0x200a
            ||| 0x2028 <= point <= 0x2029
            ||| point == 0x202f
            ||| point == 0x205f
            ||| point == 0x3000
        },
{
}

/// A text is blank exactly if no character of it is anything but white space.
pub proof fn a_blank_text_is_white_space(text: Seq<char>)
    ensures
        is_blank(text) <==> !exists|i: int|
            0 <= i < text.len() && !is_white_space(#[trigger] text[i]),
{
}

proof fn the_start_is_trimmed(text: Seq<char>) -> (start: int)
    ensures
        0 <= start <= text.len(),
        trimmed_start(text) == text.skip(start),
        forall|i: int| 0 <= i < start ==> is_white_space(#[trigger] text[i]),
        start < text.len() ==> !is_white_space(text[start]),
    decreases text.len(),
{
    if text.len() > 0 && is_white_space(text[0]) {
        let rest = text.drop_first();
        let start = the_start_is_trimmed(rest);
        assert(rest.skip(start) =~= text.skip(start + 1));
        assert forall|i: int| 0 <= i < start + 1 implies is_white_space(#[trigger] text[i]) by {
            if i > 0 {
                assert(rest[i - 1] == text[i]);
            }
        }
        start + 1
    } else {
        assert(text.skip(0) =~= text);
        0
    }
}

proof fn the_end_is_trimmed(text: Seq<char>) -> (end: int)
    ensures
        0 <= end <= text.len(),
        trimmed_end(text) == text.take(end),
        forall|i: int| end <= i < text.len() ==> is_white_space(#[trigger] text[i]),
        end > 0 ==> !is_white_space(text[end - 1]),
    decreases text.len(),
{
    if text.len() > 0 && is_white_space(text.last()) {
        let rest = text.drop_last();
        let end = the_end_is_trimmed(rest);
        assert(rest.take(end) =~= text.take(end));
        assert forall|i: int| end <= i < text.len() implies is_white_space(#[trigger] text[i]) by {
            if i < rest.len() {
                assert(rest[i] == text[i]);
            }
        }
        end
    } else {
        assert(text.take(text.len() as int) =~= text);
        text.len() as int
    }
}

/// Trimming leaves the part of a text from its first character that is no white space to its
/// last one, and nothing of a blank text.
pub proof fn trimming_leaves_what_is_inside(text: Seq<char>) -> (range: (int, int))
    ensures
        0 <= range.0 <= range.1 <= text.len(),
        trimmed(text) == text.subrange(range.0, range.1),
        forall|i: int| 0 <= i < range.0 ==> is_white_space(#[trigger] text[i]),
        forall|i: int| range.1 <= i < text.len() ==> is_white_space(#[trigger] text[i]),
        range.0 < range.1 ==> !is_white_space(text[range.0]) && !is_white_space(text[range.1 - 1]),
        range.0 == range.1 <==> is_blank(text),
        trimmed(text).len() == 0 <==> is_blank(text),
{
    let start = the_start_is_trimmed(text);
    let rest = text.skip(start);
    let end = the_end_is_trimmed(rest);
    assert(rest.take(end) =~= text.subrange(start, start + end));
    assert forall|i: int| start + end <= i < text.len() implies is_white_space(
        #[trigger] text[i],
    ) by {
        assert(rest[i - start] == text[i]);
    }
    if end > 0 {
        assert(rest[end - 1] == text[start + end - 1]);
        assert(!is_white_space(text[start]));
    } else {
        assert forall|i: int| 0 <= i < text.len() implies is_white_space(#[trigger] text[i]) by {
            if i >= start {
                assert(rest[i - start] == text[i]);
            }
        }
    }
    (start, start + end)
}

/// Two texts have the words of both if there is white space between them.
proof fn words_add_up(first: Seq<char>, second: Seq<char>)
    requires
        first.len() > 0 ==> is_white_space(first.last()),
    ensures
        word_count(first + second) == word_count(first) + word_count(second),
    decreases second.len(),
{
    let all = first + second;
    if second.len() == 0 {
        assert(all =~= first);
    } else {
        words_add_up(first, second.drop_last());
        assert(all.drop_last() =~= first + second.drop_last());
        assert(all.last() == second.last());
        if second.len() > 1 {
            assert(all[all.len() - 2] == second[second.len() - 2]);
        }
    }
}

/// There are no words in an empty text, and white space between two texts separates their words:
/// together they have as many as each on its own.
pub proof fn white_space_separates_words(first: Seq<char>, space: char, second: Seq<char>)
    requires
        is_white_space(space),
    ensures
        word_count(Seq::<char>::empty()) == 0,
        word_count(first.push(space) + second) == word_count(first) + word_count(second),
{
    words_add_up(first.push(space), second);
    assert(first.push(space).drop_last() =~= first);
}

/// Characters without white space among them are one word.
pub proof fn characters_without_white_space_are_one_word(text: Seq<char>)
    requires
        text.len() > 0,
        forall|i: int| 0 <= i < text.len() ==> !is_white_space(#[trigger] text[i]),
    ensures
        word_count(text) == 1,
    decreases text.len(),
{
    let rest = text.drop_last();
    if rest.len() > 0 {
        assert forall|i: int| 0 <= i < rest.len() implies !is_white_space(#[trigger] rest[i]) by {
            assert(rest[i] == text[i]);
        }
        characters_without_white_space_are_one_word(rest);
        assert(!is_white_space(text[text.len() - 2]));
    } else {
        assert(word_count(rest) == 0);
        assert(!is_white_space(text[0]));
    }
}

/// Replacing puts the new text in the place of each occurrence of the character, and leaves every
/// other character as it is.
pub proof fn replacing_goes_character_by_character(
    text: Seq<char>,
    c: char,
    from: char,
    to: Seq<char>,
)
    ensures
        replaced(Seq::<char>::empty(), from, to).len() == 0,
        replaced(text.push(from), from, to) == replaced(text, from, to) + to,
        c != from ==> replaced(text.push(c), from, to) == replaced(text, from, to).push(c),
{
    assert(text.push(from).drop_last() =~= text);
    assert(text.push(c).drop_last() =~= text);
    assert(c != from ==> replaced(text.push(c), from, to) =~= replaced(text, from, to).push(c));
}

/// A text starts with another exactly if it is that text with something behind it.
pub proof fn a_prefix_is_followed_by_the_rest(text: Seq<char>, prefix: Seq<char>)
    ensures
        has_prefix(text, prefix) <==> exists|rest: Seq<char>| text == #[trigger] (prefix + rest),
{
    if has_prefix(text, prefix) {
        let rest = text.skip(prefix.len() as int);
        assert(text =~= prefix + rest);
    }
    if exists|rest: Seq<char>| text == #[trigger] (prefix + rest) {
        let rest = choose|rest: Seq<char>| text == #[trigger] (prefix + rest);
        assert(text.take(prefix.len() as int) =~= prefix);
    }
}

/// The number that digits stand for.
pub open spec fn number_of(digits: Seq<char>) -> int
    decreases digits.len(),
{
    if digits.len() == 0 {
        0
    } else {
        10 * number_of(digits.drop_last()) + (digits.last() as int - '0' as int)
    }
}

/// A number in decimal notation is made of digits, which stand for the number, and has no zero in
/// front.
pub proof fn digits_stand_for_the_number(value: nat)
    ensures
        decimal(value).len() > 0,
        number_of(decimal(value)) == value,
        forall|i: int|
            0 <= i < decimal(value).len() ==> '0' <= #[trigger] decimal(value)[i] <= '9',
        decimal(value)[0] == '0' ==> value == 0,
    decreases value,
{
    reveal_with_fuel(number_of, 2);
    if value >= 10 {
        let front = decimal(value / 10);
        digits_stand_for_the_number(value / 10);
        assert(decimal(value).drop_last() =~= front);
        assert forall|i: int| 0 <= i < decimal(value).len() implies '0' <= #[trigger] decimal(
            value,
        )[i] <= '9' by {
            if i < front.len() {
                assert(decimal(value)[i] == front[i]);
            }
        }
        assert(decimal(value)[0] == front[0]);
    } else {
        assert(decimal(value).drop_last() =~= Seq::<char>::empty());
    }
}

} // verus!
