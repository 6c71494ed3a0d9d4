//! Text helpers over the character view of strings.

use vstd::prelude::*;

verus! {

/// Appends one character to a string.
///
/// Trusted: calls `String::push`, which std documents as appending the
/// given character to the end of the string.
#[verifier::external_body]
pub(crate) fn push_char(text: &mut String, character: char)
    ensures
        final(text)@ == old(text)@.push(character),
{
    text.push(character);
}

/// Whether two strings hold the same characters.
pub fn str_equal(left: &str, right: &str) -> (equal: bool)
    ensures
        equal == (left@ == right@),
{
    let length = left.unicode_len();
    if length != right.unicode_len() {
        return false;
    }
    let mut index: usize = 0;
    while index < length
        invariant
            length == left@.len(),
            length == right@.len(),
            index <= length,
            forall|position: int| 0 <= position < index ==> left@[position] == right@[position],
        decreases length - index,
    {
        if left.get_char(index) != right.get_char(index) {
            return false;
        }
        index += 1;
    }
    assert(left@ =~= right@);
    true
}

/// The character views of a list of strings.
pub open spec fn texts_of(texts: Seq<&str>) -> Seq<Seq<char>> {
    texts.map_values(|text: &str| text@)
}

/// Whether `head` is one of `heads`.
pub fn heads_contain(heads: &[&str], head: &str) -> (found: bool)
    ensures
        found == texts_of(heads@).contains(head@),
{
    let mut index: usize = 0;
    while index < heads.len()
        invariant
            index <= heads@.len(),
            forall|position: int| 0 <= position < index ==> heads@[position]@ != head@,
        decreases heads@.len() - index,
    {
        if str_equal(heads[index], head) {
            assert(texts_of(heads@)[index as int] == head@);
            return true;
        }
        index += 1;
    }
    assert forall|position: int| 0 <= position < texts_of(heads@).len() implies texts_of(
        heads@,
    )[position] != head@ by {
        assert(texts_of(heads@)[position] == heads@[position]@);
    }
    false
}

/// A character with the Unicode `White_Space` property: the ASCII tab,
/// line feed, vertical tab, form feed, carriage return and space, the
/// next line and no-break space controls, the Ogham space mark, the
/// spaces from en quad to hair space, the line and paragraph separators,
/// the narrow no-break space, the medium mathematical space and the
/// ideographic space.
pub open spec fn is_unicode_whitespace(character: char) -> bool {
    let code = character as u32;
    ||| 0x09 <= code && code <= 0x0d
    ||| code == 0x20
    ||| code == 0x85
    ||| code == 0xa0
    ||| code == 0x1680
    ||| 0x2000 <= code && code <= 0x200a
    ||| code == 0x2028
    ||| code == 0x2029
    ||| code == 0x202f
    ||| code == 0x205f
    ||| code == 0x3000
}

/// Whether a character is white space, as `char::is_whitespace` decides
/// it.
pub fn is_whitespace(character: char) -> (whitespace: bool)
    ensures
        whitespace == is_unicode_whitespace(character),
{
    let code = character as u32;
    (0x09 <= code && code <= 0x0d) || code == 0x20 || code == 0x85 || code == 0xa0 || code
        == 0x1680 || (0x2000 <= code && code <= 0x200a) || code == 0x2028 || code == 0x2029
        || code == 0x202f || code == 0x205f || code == 0x3000
}

/// `text` begins with `prefix`.
pub open spec fn has_prefix(text: Seq<char>, prefix: Seq<char>) -> bool {
    prefix.len() <= text.len() && text.subrange(0, prefix.len() as int) == prefix
}

/// Whether `text` begins with `prefix`.
pub fn starts_with(text: &str, prefix: &str) -> (starts: bool)
    ensures
        starts == has_prefix(text@, prefix@),
{
    let length = prefix.unicode_len();
    if length > text.unicode_len() {
        return false;
    }
    let head = text.substring_char(0, length);
    str_equal(head, prefix)
}

/// An ASCII letter or digit.
pub open spec fn is_ascii_alphanumeric(character: char) -> bool {
    ('0' <= character && character <= '9') || ('A' <= character && character <= 'Z') || ('a'
        <= character && character <= 'z')
}

/// The ASCII upper case of a character; other characters are unchanged.
pub open spec fn ascii_uppercase(character: char) -> char {
    if 'a' <= character && character <= 'z' {
        (((character as u32) - 32) as u8) as char
    } else {
        character
    }
}

/// The white-space separated words of the first `count` characters of
/// `text`, in order; a word is a maximal run of characters that are not
/// white space.
pub open spec fn words_prefix(text: Seq<char>, count: nat) -> Seq<Seq<char>>
    decreases count,
{
    if count == 0 || count > text.len() {
        Seq::empty()
    } else {
        let words = words_prefix(text, (count - 1) as nat);
        let character = text[count - 1];
        if is_unicode_whitespace(character) {
            words
        } else if count >= 2 && !is_unicode_whitespace(text[count - 2]) {
            words.update(words.len() - 1, words.last().push(character))
        } else {
            words.push(seq![character])
        }
    }
}

/// The white-space separated words of `text`, in order.
pub open spec fn words(text: Seq<char>) -> Seq<Seq<char>> {
    words_prefix(text, text.len())
}

/// The character views of a list of strings.
pub open spec fn strings_of(strings: Seq<String>) -> Seq<Seq<char>> {
    strings.map_values(|string: String| string@)
}

/// The words of `text`, as [`words`] says: the runs of characters between
/// white space, with no empty word.
pub fn split_whitespace(text: &str) -> (split: Vec<String>)
    ensures
        strings_of(split@) == words(text@),
{
    let length = text.unicode_len();
    let mut split: Vec<String> = Vec::new();
    let mut current = String::new();
    let mut in_word = false;
    let mut index: usize = 0;
    while index < length
        invariant
            length == text@.len(),
            index <= length,
            in_word == (index > 0 && !is_unicode_whitespace(text@[index - 1])),
            !in_word ==> current@ == Seq::<char>::empty(),
            in_word ==> strings_of(split@).push(current@) == words_prefix(text@, index as nat),
            !in_word ==> strings_of(split@) == words_prefix(text@, index as nat),
        decreases length - index,
    {
        let character = text.get_char(index);
        if is_whitespace(character) {
            if in_word {
                let word = current;
                current = String::new();
                let ghost split_before = split@;
                split.push(word);
                assert(strings_of(split@) =~= strings_of(split_before).push(word@));
                in_word = false;
            }
        } else {
            let ghost before = current@;
            push_char(&mut current, character);
            if !in_word {
                assert(current@ =~= seq![character]);
            } else {
                let ghost words_before = strings_of(split@).push(before);
                assert(strings_of(split@).push(current@) =~= words_before.update(words_before.len() - 1, words_before.last().push(character)));
            }
            in_word = true;
        }
        index += 1;
    }
    if in_word {
        let word = current;
        let ghost split_before = split@;
        split.push(word);
        assert(strings_of(split@) =~= strings_of(split_before).push(word@));
    }
    split
}

/// A decimal digit.
pub open spec fn is_decimal_digit(character: char) -> bool {
    '0' <= character && character <= '9'
}

/// The value of a string of decimal digits, most significant first.
pub open spec fn decimal_value(digits: Seq<char>) -> nat
    decreases digits.len(),
{
    if digits.len() == 0 {
        0
    } else {
        decimal_value(digits.drop_last()) * 10 + ((digits.last() as nat) - ('0' as nat)) as nat
    }
}

/// The digits of an unsigned number's text: the text after an optional
/// leading `+`.
pub open spec fn unsigned_digits(text: Seq<char>) -> Seq<char> {
    if text.len() > 0 && text[0] == '+' {
        text.skip(1)
    } else {
        text
    }
}

/// The `u64` that `text` spells, as std parses an unsigned decimal: an
/// optional `+`, then one or more decimal digits whose value fits; nothing
/// for any other text.
pub open spec fn parsed_u64(text: Seq<char>) -> Option<u64> {
    let digits = unsigned_digits(text);
    if digits.len() > 0 && (forall|index: int| 0 <= index < digits.len() ==> is_decimal_digit(#[trigger] digits[index]))
        && decimal_value(digits) <= u64::MAX {
        Some(decimal_value(digits) as u64)
    } else {
        None
    }
}

/// The `u64` that `text` spells, as [`parsed_u64`] says.
pub fn parse_u64(text: &str) -> (value: Option<u64>)
    ensures
        value == parsed_u64(text@),
{
    let length = text.unicode_len();
    let mut start: usize = 0;
    if length > 0 && text.get_char(0) == '+' {
        start = 1;
    }
    let ghost digits = unsigned_digits(text@);
    assert(digits =~= text@.subrange(start as int, length as int));
    if start == length {
        return None;
    }
    let mut value: u64 = 0;
    let mut overflowed = false;
    let mut index: usize = start;
    while index < length
        invariant
            length == text@.len(),
            start <= index <= length,
            start < length,
            digits == text@.subrange(start as int, length as int),
            digits == unsigned_digits(text@),
            forall|position: int| start <= position < index ==> is_decimal_digit(#[trigger] text@[position]),
            !overflowed ==> value == decimal_value(text@.subrange(start as int, index as int)),
            overflowed ==> decimal_value(text@.subrange(start as int, index as int)) > u64::MAX,
        decreases length - index,
    {
        let character = text.get_char(index);
        if !('0' <= character && character <= '9') {
            assert(digits[index - start] == character);
            assert(!is_decimal_digit(digits[index - start]));
            return None;
        }
        let ghost prefix = text@.subrange(start as int, index as int);
        let ghost longer = text@.subrange(start as int, index + 1);
        assert(longer.drop_last() =~= prefix);
        let digit = (character as u32 - '0' as u32) as u64;
        if !overflowed {
            match value.checked_mul(10) {
                Some(scaled) => match scaled.checked_add(digit) {
                    Some(next) => {
                        value = next;
                    },
                    None => {
                        overflowed = true;
                    },
                },
                None => {
                    overflowed = true;
                },
            }
        }
        index += 1;
    }
    assert(text@.subrange(start as int, length as int) =~= digits);
    if overflowed {
        None
    } else {
        Some(value)
    }
}

} // verus!
