//! Names derived from schema and package names: snake case for method
//! names, Pascal case for type names, and the schema file stem of a
//! contract package.

use vstd::prelude::*;
use crate::text::{has_prefix, push_char, starts_with};

verus! {

/// Whether a character has the Unicode `Uppercase` property.
pub uninterp spec fn is_unicode_uppercase(character: char) -> bool;

/// The Unicode lower-case mapping of a character: one or more characters,
/// the character itself where it has none.
pub uninterp spec fn lowercase_mapping(character: char) -> Seq<char>;

/// The Unicode upper-case mapping of a character: one or more characters,
/// the character itself where it has none.
pub uninterp spec fn uppercase_mapping(character: char) -> Seq<char>;

/// Whether a character is upper case.
///
/// Trusted: calls `char::is_uppercase`, whose result depends on the
/// character alone (the Unicode `Uppercase` property); this contract names
/// that result and claims nothing more of it.
#[verifier::external_body]
fn is_uppercase(character: char) -> (uppercase: bool)
    ensures
        uppercase == is_unicode_uppercase(character),
{
    character.is_uppercase()
}

/// The lower-case mapping of a character, as the characters it yields.
///
/// Trusted: calls `char::to_lowercase` and collects the characters its
/// iterator yields, which depend on the character alone; this contract
/// names them and claims nothing more of them.
#[verifier::external_body]
fn to_lowercase(character: char) -> (mapping: Vec<char>)
    ensures
        mapping@ == lowercase_mapping(character),
{
    character.to_lowercase().collect()
}

/// The upper-case mapping of a character, as the characters it yields.
///
/// Trusted: calls `char::to_uppercase` and collects the characters its
/// iterator yields, which depend on the character alone; this contract
/// names them and claims nothing more of them.
#[verifier::external_body]
fn to_uppercase(character: char) -> (mapping: Vec<char>)
    ensures
        mapping@ == uppercase_mapping(character),
{
    character.to_uppercase().collect()
}

/// What one character of a name becomes in snake case: an upper-case
/// character becomes its lower-case mapping, after an underscore unless
/// it starts the name; any other character stays.
pub open spec fn snake_piece(character: char, first: bool) -> Seq<char> {
    if is_unicode_uppercase(character) {
        if first {
            lowercase_mapping(character)
        } else {
            seq!['_'] + lowercase_mapping(character)
        }
    } else {
        seq![character]
    }
}

/// The snake case of the first `count` characters of `name`.
pub open spec fn snake_case_prefix(name: Seq<char>, count: nat) -> Seq<char>
    decreases count,
{
    if count == 0 || count > name.len() {
        Seq::empty()
    } else {
        snake_case_prefix(name, (count - 1) as nat) + snake_piece(name[count - 1], count == 1)
    }
}

/// The snake case of a name.
pub open spec fn snake_case(name: Seq<char>) -> Seq<char> {
    snake_case_prefix(name, name.len())
}

/// Appends characters to a string.
fn push_all(output: &mut String, characters: &Vec<char>)
    ensures
        final(output)@ == old(output)@ + characters@,
{
    let mut index: usize = 0;
    while index < characters.len()
        invariant
            index <= characters@.len(),
            output@ == old(output)@ + characters@.subrange(0, index as int),
        decreases characters@.len() - index,
    {
        push_char(output, characters[index]);
        index += 1;
        assert(characters@.subrange(0, index as int) =~= characters@.subrange(0, index - 1 as int).push(characters@[index - 1]));
    }
    assert(characters@.subrange(0, characters@.len() as int) =~= characters@);
}

/// The snake-case form of a name: each upper-case character becomes its
/// lower-case mapping, preceded by an underscore unless it starts the
/// name.
pub fn to_snake_case(name: &str) -> (snake: String)
    ensures
        snake@ == snake_case(name@),
{
    let length = name.unicode_len();
    let mut output = String::new();
    let mut index: usize = 0;
    while index < length
        invariant
            length == name@.len(),
            index <= length,
            output@ == snake_case_prefix(name@, index as nat),
        decreases length - index,
    {
        let character = name.get_char(index);
        if is_uppercase(character) {
            if index > 0 {
                push_char(&mut output, '_');
            }
            let lower = to_lowercase(character);
            push_all(&mut output, &lower);
        } else {
            push_char(&mut output, character);
        }
        index += 1;
    }
    output
}

/// The Pascal case of the first `count` characters of `value`, and whether
/// the next character starts a word: a hyphen or an underscore ends a word
/// and is dropped, and the first character of each word takes its
/// upper-case mapping.
pub open spec fn pascal_case_prefix(value: Seq<char>, count: nat) -> (Seq<char>, bool)
    decreases count,
{
    if count == 0 || count > value.len() {
        (Seq::empty(), true)
    } else {
        let (text, word_start) = pascal_case_prefix(value, (count - 1) as nat);
        let character = value[count - 1];
        if character == '-' || character == '_' {
            (text, true)
        } else if word_start {
            (text + uppercase_mapping(character), false)
        } else {
            (text.push(character), false)
        }
    }
}

/// The Pascal case of a name.
pub open spec fn pascal_case(value: Seq<char>) -> Seq<char> {
    pascal_case_prefix(value, value.len()).0
}

/// The Pascal-case form of a hyphen- or underscore-separated name: the
/// separators are dropped and each word starts with the upper-case
/// mapping of its first character.
pub fn to_pascal_case(value: &str) -> (pascal: String)
    ensures
        pascal@ == pascal_case(value@),
{
    let length = value.unicode_len();
    let mut result = String::new();
    let mut uppercase = true;
    let mut index: usize = 0;
    while index < length
        invariant
            length == value@.len(),
            index <= length,
            pascal_case_prefix(value@, index as nat) == (result@, uppercase),
        decreases length - index,
    {
        let character = value.get_char(index);
        if character == '-' || character == '_' {
            uppercase = true;
        } else if uppercase {
            let upper = to_uppercase(character);
            push_all(&mut result, &upper);
            uppercase = false;
        } else {
            push_char(&mut result, character);
        }
        index += 1;
    }
    result
}

/// The schema file stem of a contract package: its name without the
/// first of the prefixes `owner-signal-persona-`, `signal-persona-`,
/// `owner-signal-` and `signal-` that it starts with, tried in that order.
pub open spec fn schema_file_stem(package: Seq<char>) -> Seq<char> {
    if has_prefix(package, "owner-signal-persona-"@) {
        package.skip(21)
    } else if has_prefix(package, "signal-persona-"@) {
        package.skip(15)
    } else if has_prefix(package, "owner-signal-"@) {
        package.skip(13)
    } else if has_prefix(package, "signal-"@) {
        package.skip(7)
    } else {
        package
    }
}

/// The characters of `text` from `from` on.
fn suffix_from(text: &str, from: usize) -> (suffix: String)
    requires
        from <= text@.len(),
    ensures
        suffix@ == text@.skip(from as int),
{
    let length = text.unicode_len();
    String::from_str(text.substring_char(from, length))
}

/// The schema file stem of a contract package, as
/// [`schema_file_stem`] says.
pub fn schema_file_stem_from_package(package: &str) -> (stem: String)
    ensures
        stem@ == schema_file_stem(package@),
{
    proof {
        reveal_strlit("owner-signal-persona-");
        reveal_strlit("signal-persona-");
        reveal_strlit("owner-signal-");
        reveal_strlit("signal-");
    }
    if starts_with(package, "owner-signal-persona-") {
        suffix_from(package, 21)
    } else if starts_with(package, "signal-persona-") {
        suffix_from(package, 15)
    } else if starts_with(package, "owner-signal-") {
        suffix_from(package, 13)
    } else if starts_with(package, "signal-") {
        suffix_from(package, 7)
    } else {
        String::from_str(package)
    }
}

} // verus!
