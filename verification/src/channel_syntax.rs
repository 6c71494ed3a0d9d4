//! The text form of a channel declaration and its reading into a
//! [`ChannelSpec`].
//!
//! A declaration reads:
//!
//! ```text
//! channel Name contract Contract {
//!     operation Variant(Type) opens Stream,
//!     operation Variant(Type),
//! }
//! reply Name { Variant(Type), Variant }
//! event Name { Variant(Type) belongs Stream }
//! stream Stream { token Type; opened Variant; event Variant; close Variant; }
//! observable { filter default; operation_event Record; effect_event Record; }
//! ```
//!
//! after the operations, a `reply` block is required and the `event`,
//! `stream` and `observable` blocks are optional; the `stream` block may
//! repeat. The text is first cut into tokens: words, which are maximal
//! runs of letters, digits, underscores and characters beyond ASCII, and
//! marks, which are single other characters; white space separates
//! tokens and is dropped. A type is the run of tokens up to the mark that
//! closes it, with its parentheses, brackets and angle brackets balanced,
//! and is held as those tokens joined.

use vstd::prelude::*;

use crate::channel::{
    views, ChannelSpec, EventBlockSpec, EventVariantSpec, FilterDecl, ObservableBlockSpec,
    ReplyBlockSpec, ReplyVariantSpec, RequestBlockSpec, RequestVariantSpec, StreamBlockSpec,
};
use crate::text::{is_decimal_digit, is_unicode_whitespace, is_whitespace, push_char, str_equal, strings_of};

verus! {

// ---------------------------------------------------------------------
// Tokens

/// A character of a word: a letter, digit or underscore, or any character
/// beyond ASCII that is not white space.
pub open spec fn is_word_character(character: char) -> bool {
    &&& !is_unicode_whitespace(character)
    &&& (character == '_' || ('0' <= character && character <= '9') || ('A' <= character
        && character <= 'Z') || ('a' <= character && character <= 'z') || (character as u32)
        >= 128)
}

/// The tokens of the first `count` characters of `text`, in order.
pub open spec fn tokens_prefix(text: Seq<char>, count: nat) -> Seq<Seq<char>>
    decreases count,
{
    if count == 0 || count > text.len() {
        Seq::empty()
    } else {
        let tokens = tokens_prefix(text, (count - 1) as nat);
        let character = text[count - 1];
        if is_unicode_whitespace(character) {
            tokens
        } else if is_word_character(character) && count >= 2 && is_word_character(text[count - 2]) {
            tokens.update(tokens.len() - 1, tokens.last().push(character))
        } else {
            tokens.push(seq![character])
        }
    }
}

/// The tokens of a declaration text.
pub open spec fn tokens_of(text: Seq<char>) -> Seq<Seq<char>> {
    tokens_prefix(text, text.len())
}

fn is_word_char(character: char) -> (word: bool)
    ensures
        word == is_word_character(character),
{
    if is_whitespace(character) {
        return false;
    }
    character == '_' || ('0' <= character && character <= '9') || ('A' <= character && character
        <= 'Z') || ('a' <= character && character <= 'z') || (character as u32) >= 128
}

/// The tokens of a declaration text, as [`tokens_of`] says.
pub fn tokenize(text: &str) -> (tokens: Vec<String>)
    ensures
        strings_of(tokens@) == tokens_of(text@),
{
    let length = text.unicode_len();
    let mut tokens: Vec<String> = Vec::new();
    let mut current = String::new();
    let mut in_word = false;
    let mut index: usize = 0;
    while index < length
        invariant
            length == text@.len(),
            index <= length,
            in_word == (index > 0 && is_word_character(text@[index - 1])),
            !in_word ==> current@ == Seq::<char>::empty(),
            in_word ==> strings_of(tokens@).push(current@) == tokens_prefix(text@, index as nat),
            !in_word ==> strings_of(tokens@) == tokens_prefix(text@, index as nat),
        decreases length - index,
    {
        let character = text.get_char(index);
        if is_word_char(character) {
            let ghost before = current@;
            push_char(&mut current, character);
            if !in_word {
                assert(current@ =~= seq![character]);
            } else {
                let ghost earlier = strings_of(tokens@).push(before);
                assert(strings_of(tokens@).push(current@) =~= earlier.update(
                    earlier.len() - 1,
                    earlier.last().push(character),
                ));
            }
            in_word = true;
        } else {
            if in_word {
                let word = current;
                current = String::new();
                let ghost tokens_before = tokens@;
                tokens.push(word);
                assert(strings_of(tokens@) =~= strings_of(tokens_before).push(word@));
                in_word = false;
            }
            if !is_whitespace(character) {
                let mut mark = String::new();
                push_char(&mut mark, character);
                let ghost tokens_before = tokens@;
                tokens.push(mark);
                assert(strings_of(tokens@) =~= strings_of(tokens_before).push(seq![character]));
            }
        }
        index += 1;
    }
    if in_word {
        let word = current;
        let ghost tokens_before = tokens@;
        tokens.push(word);
        assert(strings_of(tokens@) =~= strings_of(tokens_before).push(word@));
    }
    tokens
}

// ---------------------------------------------------------------------
// Failures

/// What the reader expected where it failed.
#[derive(Debug, Clone, Copy, PartialEq, Eq, Structural)]
pub enum Expectation {
    Channel,
    Contract,
    Identifier,
    OpenBrace,
    CloseBrace,
    OpenParenthesis,
    Comma,
    Semicolon,
    Operation,
    Type,
    Token,
    Opened,
    Close,
    Filter,
    OperationEvent,
    EffectEvent,
    Block,
}

/// Why a declaration text was refused.
#[derive(Debug, Clone, Copy, PartialEq, Eq, Structural)]
pub enum SyntaxFailure {
    /// Something else was expected at the position.
    Expected(Expectation),
    /// A second `reply` block.
    DuplicateReply,
    /// A second `event` block.
    DuplicateEvent,
    /// A second `observable` block.
    DuplicateObservable,
    /// A `stream` block with no `event` slot.
    StreamWithoutEvents,
    /// No `reply` block.
    MissingReply,
}

/// A refused declaration text: the index of the token where reading
/// failed, and why.
#[derive(Debug, Clone, Copy, PartialEq, Eq, Structural)]
pub struct ChannelSyntaxError {
    pub position: usize,
    pub failure: SyntaxFailure,
}

/// The refusal at `position` for want of `what`.
pub open spec fn expected_at(position: int, what: Expectation) -> ChannelSyntaxError {
    ChannelSyntaxError { position: position as usize, failure: SyntaxFailure::Expected(what) }
}

fn expected(position: usize, what: Expectation) -> (error: ChannelSyntaxError)
    ensures
        error == expected_at(position as int, what),
{
    ChannelSyntaxError { position, failure: SyntaxFailure::Expected(what) }
}

// ---------------------------------------------------------------------
// What a declaration says

pub struct OperationSyntax {
    pub name: Seq<char>,
    pub payload: Seq<char>,
    pub opens: Option<Seq<char>>,
}

pub struct ReplyVariantSyntax {
    pub name: Seq<char>,
    pub payload: Option<Seq<char>>,
}

pub struct EventVariantSyntax {
    pub name: Seq<char>,
    pub payload: Seq<char>,
    pub belongs: Option<Seq<char>>,
}

pub struct ReplyBlockSyntax {
    pub name: Seq<char>,
    pub variants: Seq<ReplyVariantSyntax>,
}

pub struct EventBlockSyntax {
    pub name: Seq<char>,
    pub variants: Seq<EventVariantSyntax>,
}

pub struct StreamSyntax {
    pub name: Seq<char>,
    pub token: Seq<char>,
    pub opened: Seq<char>,
    pub events: Seq<Seq<char>>,
    pub close: Seq<char>,
}

pub struct ObservableSyntax {
    /// The named filter type; none for the generated default filter.
    pub filter: Option<Seq<char>>,
    pub operation_event: Seq<char>,
    pub effect_event: Seq<char>,
}

/// The blocks read after the operations.
pub struct BlocksSyntax {
    pub reply: Option<ReplyBlockSyntax>,
    pub event: Option<EventBlockSyntax>,
    pub streams: Seq<StreamSyntax>,
    pub observable: Option<ObservableSyntax>,
}

pub struct ChannelSyntax {
    pub name: Seq<char>,
    pub contract: Seq<char>,
    pub operations: Seq<OperationSyntax>,
    pub reply: ReplyBlockSyntax,
    pub event: Option<EventBlockSyntax>,
    pub streams: Seq<StreamSyntax>,
    pub observable: Option<ObservableSyntax>,
}

// ---------------------------------------------------------------------
// The grammar

/// The token at `position` is `text`.
pub open spec fn token_is(tokens: Seq<Seq<char>>, position: int, text: Seq<char>) -> bool {
    0 <= position < tokens.len() && tokens[position] == text
}

/// A word that does not start with a digit.
pub open spec fn is_identifier(token: Seq<char>) -> bool {
    token.len() > 0 && is_word_character(token[0]) && !is_decimal_digit(token[0])
}

/// The identifier at `position`, and the position after it.
pub open spec fn identifier_at(tokens: Seq<Seq<char>>, position: int) -> Result<(Seq<char>, int), ChannelSyntaxError> {
    if 0 <= position < tokens.len() && is_identifier(tokens[position]) {
        Ok((tokens[position], position + 1))
    } else {
        Err(expected_at(position, Expectation::Identifier))
    }
}

/// A mark that opens a nested part of a type.
pub open spec fn is_opener(token: Seq<char>) -> bool {
    token == "("@ || token == "["@ || token == "<"@
}

/// A mark that closes a nested part of a type.
pub open spec fn is_closer(token: Seq<char>) -> bool {
    token == ")"@ || token == "]"@ || token == ">"@
}

/// The position of the `stop` mark that ends a type starting at
/// `position`, `depth` levels deep: the first `stop` outside every
/// parenthesis, bracket and angle bracket; nothing when a closing mark
/// comes first or the tokens run out.
pub open spec fn balanced_end(tokens: Seq<Seq<char>>, position: int, depth: nat, stop: Seq<char>) -> Option<int>
    decreases tokens.len() - position,
{
    if position < 0 || position >= tokens.len() {
        None
    } else if depth == 0 && tokens[position] == stop {
        Some(position)
    } else if is_opener(tokens[position]) {
        balanced_end(tokens, position + 1, depth + 1, stop)
    } else if is_closer(tokens[position]) {
        if depth == 0 {
            None
        } else {
            balanced_end(tokens, position + 1, (depth - 1) as nat, stop)
        }
    } else {
        balanced_end(tokens, position + 1, depth, stop)
    }
}

/// Tokens joined into one text.
pub open spec fn joined(tokens: Seq<Seq<char>>) -> Seq<char>
    decreases tokens.len(),
{
    if tokens.len() == 0 {
        Seq::empty()
    } else {
        joined(tokens.drop_last()) + tokens.last()
    }
}

/// The type at `position`, which the mark `stop` ends, and the position
/// of that mark; a type has at least one token.
pub open spec fn type_before(tokens: Seq<Seq<char>>, position: int, stop: Seq<char>) -> Result<(Seq<char>, int), ChannelSyntaxError> {
    match balanced_end(tokens, position, 0, stop) {
        Some(end) => if end > position {
            Ok((joined(tokens.subrange(position, end)), end))
        } else {
            Err(expected_at(position, Expectation::Type))
        },
        None => Err(expected_at(position, Expectation::Type)),
    }
}

/// `operation Variant(Type)`, then optionally `opens Stream`.
pub open spec fn operation_at(tokens: Seq<Seq<char>>, position: int) -> Result<(OperationSyntax, int), ChannelSyntaxError> {
    if !token_is(tokens, position, "operation"@) {
        Err(expected_at(position, Expectation::Operation))
    } else {
        match identifier_at(tokens, position + 1) {
            Err(error) => Err(error),
            Ok((name, after_name)) => if !token_is(tokens, after_name, "("@) {
                Err(expected_at(after_name, Expectation::OpenParenthesis))
            } else {
                match type_before(tokens, after_name + 1, ")"@) {
                    Err(error) => Err(error),
                    Ok((payload, close)) => if token_is(tokens, close + 1, "opens"@) {
                        match identifier_at(tokens, close + 2) {
                            Err(error) => Err(error),
                            Ok((stream, after)) => Ok((OperationSyntax { name, payload, opens: Some(stream) }, after)),
                        }
                    } else {
                        Ok((OperationSyntax { name, payload, opens: None }, close + 1))
                    },
                }
            },
        }
    }
}

/// `Variant`, or `Variant(Type)`.
pub open spec fn reply_variant_at(tokens: Seq<Seq<char>>, position: int) -> Result<(ReplyVariantSyntax, int), ChannelSyntaxError> {
    match identifier_at(tokens, position) {
        Err(error) => Err(error),
        Ok((name, after_name)) => if token_is(tokens, after_name, "("@) {
            match type_before(tokens, after_name + 1, ")"@) {
                Err(error) => Err(error),
                Ok((payload, close)) => Ok((ReplyVariantSyntax { name, payload: Some(payload) }, close + 1)),
            }
        } else {
            Ok((ReplyVariantSyntax { name, payload: None }, after_name))
        },
    }
}

/// `Variant(Type)`, then optionally `belongs Stream`.
pub open spec fn event_variant_at(tokens: Seq<Seq<char>>, position: int) -> Result<(EventVariantSyntax, int), ChannelSyntaxError> {
    match identifier_at(tokens, position) {
        Err(error) => Err(error),
        Ok((name, after_name)) => if !token_is(tokens, after_name, "("@) {
            Err(expected_at(after_name, Expectation::OpenParenthesis))
        } else {
            match type_before(tokens, after_name + 1, ")"@) {
                Err(error) => Err(error),
                Ok((payload, close)) => if token_is(tokens, close + 1, "belongs"@) {
                    match identifier_at(tokens, close + 2) {
                        Err(error) => Err(error),
                        Ok((stream, after)) => Ok((EventVariantSyntax { name, payload, belongs: Some(stream) }, after)),
                    }
                } else {
                    Ok((EventVariantSyntax { name, payload, belongs: None }, close + 1))
                },
            }
        },
    }
}

/// The operations up to and with the closing brace, separated by commas,
/// a comma after the last allowed.
pub open spec fn operations_at(tokens: Seq<Seq<char>>, position: int) -> Result<(Seq<OperationSyntax>, int), ChannelSyntaxError>
    decreases tokens.len() - position,
{
    if token_is(tokens, position, "}"@) {
        Ok((Seq::empty(), position + 1))
    } else {
        match operation_at(tokens, position) {
            Err(error) => Err(error),
            Ok((operation, after)) => if token_is(tokens, after, "}"@) {
                Ok((seq![operation], after + 1))
            } else if !token_is(tokens, after, ","@) {
                Err(expected_at(after, Expectation::Comma))
            } else {
                match operations_at(tokens, after + 1) {
                    Err(error) => Err(error),
                    Ok((rest, end)) => Ok((seq![operation] + rest, end)),
                }
            },
        }
    }
}

/// The reply variants up to and with the closing brace.
pub open spec fn reply_variants_at(tokens: Seq<Seq<char>>, position: int) -> Result<(Seq<ReplyVariantSyntax>, int), ChannelSyntaxError>
    decreases tokens.len() - position,
{
    if token_is(tokens, position, "}"@) {
        Ok((Seq::empty(), position + 1))
    } else {
        match reply_variant_at(tokens, position) {
            Err(error) => Err(error),
            Ok((variant, after)) => if token_is(tokens, after, "}"@) {
                Ok((seq![variant], after + 1))
            } else if !token_is(tokens, after, ","@) {
                Err(expected_at(after, Expectation::Comma))
            } else {
                match reply_variants_at(tokens, after + 1) {
                    Err(error) => Err(error),
                    Ok((rest, end)) => Ok((seq![variant] + rest, end)),
                }
            },
        }
    }
}

/// The event variants up to and with the closing brace.
pub open spec fn event_variants_at(tokens: Seq<Seq<char>>, position: int) -> Result<(Seq<EventVariantSyntax>, int), ChannelSyntaxError>
    decreases tokens.len() - position,
{
    if token_is(tokens, position, "}"@) {
        Ok((Seq::empty(), position + 1))
    } else {
        match event_variant_at(tokens, position) {
            Err(error) => Err(error),
            Ok((variant, after)) => if token_is(tokens, after, "}"@) {
                Ok((seq![variant], after + 1))
            } else if !token_is(tokens, after, ","@) {
                Err(expected_at(after, Expectation::Comma))
            } else {
                match event_variants_at(tokens, after + 1) {
                    Err(error) => Err(error),
                    Ok((rest, end)) => Ok((seq![variant] + rest, end)),
                }
            },
        }
    }
}

/// `keyword Identifier ;`: the identifier and the position after the
/// semicolon.
pub open spec fn slot_at(tokens: Seq<Seq<char>>, position: int, keyword: Seq<char>, what: Expectation) -> Result<(Seq<char>, int), ChannelSyntaxError> {
    if !token_is(tokens, position, keyword) {
        Err(expected_at(position, what))
    } else {
        match identifier_at(tokens, position + 1) {
            Err(error) => Err(error),
            Ok((name, after)) => if token_is(tokens, after, ";"@) {
                Ok((name, after + 1))
            } else {
                Err(expected_at(after, Expectation::Semicolon))
            },
        }
    }
}

/// The `event Variant;` slots of a stream block, as many as follow.
pub open spec fn stream_events_at(tokens: Seq<Seq<char>>, position: int) -> Result<(Seq<Seq<char>>, int), ChannelSyntaxError>
    decreases tokens.len() - position,
{
    if !token_is(tokens, position, "event"@) {
        Ok((Seq::empty(), position))
    } else {
        match slot_at(tokens, position, "event"@, Expectation::Block) {
            Err(error) => Err(error),
            Ok((event, after)) => match stream_events_at(tokens, after) {
                Err(error) => Err(error),
                Ok((rest, end)) => Ok((seq![event] + rest, end)),
            },
        }
    }
}

/// A stream block after its keyword: `Name { token Type; opened Variant;
/// event Variant; ... close Variant; }`, with at least one event slot.
pub open spec fn stream_block_at(tokens: Seq<Seq<char>>, position: int) -> Result<(StreamSyntax, int), ChannelSyntaxError> {
    match identifier_at(tokens, position) {
        Err(error) => Err(error),
        Ok((name, after_name)) => if !token_is(tokens, after_name, "{"@) {
            Err(expected_at(after_name, Expectation::OpenBrace))
        } else if !token_is(tokens, after_name + 1, "token"@) {
            Err(expected_at(after_name + 1, Expectation::Token))
        } else {
            match type_before(tokens, after_name + 2, ";"@) {
                Err(error) => Err(error),
                Ok((token, semicolon)) => match slot_at(tokens, semicolon + 1, "opened"@, Expectation::Opened) {
                    Err(error) => Err(error),
                    Ok((opened, after_opened)) => match stream_events_at(tokens, after_opened) {
                        Err(error) => Err(error),
                        Ok((events, after_events)) => if events.len() == 0 {
                            Err(ChannelSyntaxError { position: after_events as usize, failure: SyntaxFailure::StreamWithoutEvents })
                        } else {
                            match slot_at(tokens, after_events, "close"@, Expectation::Close) {
                                Err(error) => Err(error),
                                Ok((close, after_close)) => if token_is(tokens, after_close, "}"@) {
                                    Ok((StreamSyntax { name, token, opened, events, close }, after_close + 1))
                                } else {
                                    Err(expected_at(after_close, Expectation::CloseBrace))
                                },
                            }
                        },
                    },
                },
            }
        },
    }
}

/// An observable block after its keyword: `{ filter default;` or
/// `{ filter Type;`, then `operation_event Record; effect_event Record; }`.
pub open spec fn observable_block_at(tokens: Seq<Seq<char>>, position: int) -> Result<(ObservableSyntax, int), ChannelSyntaxError> {
    if !token_is(tokens, position, "{"@) {
        Err(expected_at(position, Expectation::OpenBrace))
    } else if !token_is(tokens, position + 1, "filter"@) {
        Err(expected_at(position + 1, Expectation::Filter))
    } else {
        let filter: Result<(Option<Seq<char>>, int), ChannelSyntaxError> = if token_is(tokens, position + 2, "default"@) {
            Ok((None, position + 3))
        } else {
            match identifier_at(tokens, position + 2) {
                Err(error) => Err(error),
                Ok((name, after)) => Ok((Some(name), after)),
            }
        };
        match filter {
            Err(error) => Err(error),
            Ok((filter, after_filter)) => if !token_is(tokens, after_filter, ";"@) {
                Err(expected_at(after_filter, Expectation::Semicolon))
            } else {
                match slot_at(tokens, after_filter + 1, "operation_event"@, Expectation::OperationEvent) {
                    Err(error) => Err(error),
                    Ok((operation_event, after_operation)) => match slot_at(tokens, after_operation, "effect_event"@, Expectation::EffectEvent) {
                        Err(error) => Err(error),
                        Ok((effect_event, after_effect)) => if token_is(tokens, after_effect, "}"@) {
                            Ok((ObservableSyntax { filter, operation_event, effect_event }, after_effect + 1))
                        } else {
                            Err(expected_at(after_effect, Expectation::CloseBrace))
                        },
                    },
                }
            },
        }
    }
}

/// A reply or event block after its keyword: `Name {`, then its variants.
pub open spec fn reply_block_at(tokens: Seq<Seq<char>>, position: int) -> Result<(ReplyBlockSyntax, int), ChannelSyntaxError> {
    match identifier_at(tokens, position) {
        Err(error) => Err(error),
        Ok((name, after_name)) => if !token_is(tokens, after_name, "{"@) {
            Err(expected_at(after_name, Expectation::OpenBrace))
        } else {
            match reply_variants_at(tokens, after_name + 1) {
                Err(error) => Err(error),
                Ok((variants, after)) => Ok((ReplyBlockSyntax { name, variants }, after)),
            }
        },
    }
}

/// An event block after its keyword.
pub open spec fn event_block_at(tokens: Seq<Seq<char>>, position: int) -> Result<(EventBlockSyntax, int), ChannelSyntaxError> {
    match identifier_at(tokens, position) {
        Err(error) => Err(error),
        Ok((name, after_name)) => if !token_is(tokens, after_name, "{"@) {
            Err(expected_at(after_name, Expectation::OpenBrace))
        } else {
            match event_variants_at(tokens, after_name + 1) {
                Err(error) => Err(error),
                Ok((variants, after)) => Ok((EventBlockSyntax { name, variants }, after)),
            }
        },
    }
}

/// Reading stream event slots never moves back.
pub proof fn lemma_stream_events_advance(tokens: Seq<Seq<char>>, position: int)
    ensures
        stream_events_at(tokens, position) matches Ok((_, end)) ==> end >= position,
    decreases tokens.len() - position,
{
    if token_is(tokens, position, "event"@) {
        if let Ok((_, after)) = slot_at(tokens, position, "event"@, Expectation::Block) {
            lemma_stream_events_advance(tokens, after);
        }
    }
}

/// Reading reply variants consumes at least the closing brace.
pub proof fn lemma_reply_variants_advance(tokens: Seq<Seq<char>>, position: int)
    ensures
        reply_variants_at(tokens, position) matches Ok((_, end)) ==> position < end <= tokens.len(),
    decreases tokens.len() - position,
{
    if !token_is(tokens, position, "}"@) {
        if let Ok((_, after)) = reply_variant_at(tokens, position) {
            if !token_is(tokens, after, "}"@) && token_is(tokens, after, ","@) {
                lemma_reply_variants_advance(tokens, after + 1);
            }
        }
    }
}

/// Reading event variants consumes at least the closing brace.
pub proof fn lemma_event_variants_advance(tokens: Seq<Seq<char>>, position: int)
    ensures
        event_variants_at(tokens, position) matches Ok((_, end)) ==> position < end <= tokens.len(),
    decreases tokens.len() - position,
{
    if !token_is(tokens, position, "}"@) {
        if let Ok((_, after)) = event_variant_at(tokens, position) {
            if !token_is(tokens, after, "}"@) && token_is(tokens, after, ","@) {
                lemma_event_variants_advance(tokens, after + 1);
            }
        }
    }
}

/// Reading any block consumes at least one token.
pub proof fn lemma_blocks_advance(tokens: Seq<Seq<char>>, position: int)
    ensures
        reply_block_at(tokens, position) matches Ok((_, end)) ==> end > position,
        event_block_at(tokens, position) matches Ok((_, end)) ==> end > position,
        stream_block_at(tokens, position) matches Ok((_, end)) ==> end > position,
        observable_block_at(tokens, position) matches Ok((_, end)) ==> end > position,
{
    lemma_reply_variants_advance(tokens, position + 2);
    lemma_event_variants_advance(tokens, position + 2);
    if let Ok((_, after_name)) = identifier_at(tokens, position) {
        if let Ok((_, semicolon)) = type_before(tokens, after_name + 2, ";"@) {
            if let Ok((_, after_opened)) = slot_at(tokens, semicolon + 1, "opened"@, Expectation::Opened) {
                lemma_stream_events_advance(tokens, after_opened);
            }
        }
    }
}

/// The blocks from `position` to the end, added to those read before:
/// `reply`, `event` and `observable` at most once each, `stream` any
/// number of times, in any order.
pub open spec fn blocks_at(tokens: Seq<Seq<char>>, position: int, read: BlocksSyntax) -> Result<BlocksSyntax, ChannelSyntaxError>
    decreases tokens.len() - position,
{
    if position < 0 || position >= tokens.len() {
        Ok(read)
    } else if token_is(tokens, position, "reply"@) {
        if read.reply is Some {
            Err(ChannelSyntaxError { position: position as usize, failure: SyntaxFailure::DuplicateReply })
        } else {
            match reply_block_at(tokens, position + 1) {
                Err(error) => Err(error),
                Ok((reply, after)) => {
                    proof {
                        lemma_blocks_advance(tokens, position + 1);
                        lemma_reply_variants_advance(tokens, position + 3);
                    }
                    blocks_at(tokens, after, BlocksSyntax { reply: Some(reply), ..read })
                },
            }
        }
    } else if token_is(tokens, position, "event"@) {
        if read.event is Some {
            Err(ChannelSyntaxError { position: position as usize, failure: SyntaxFailure::DuplicateEvent })
        } else {
            match event_block_at(tokens, position + 1) {
                Err(error) => Err(error),
                Ok((event, after)) => {
                    proof {
                        lemma_blocks_advance(tokens, position + 1);
                        lemma_event_variants_advance(tokens, position + 3);
                    }
                    blocks_at(tokens, after, BlocksSyntax { event: Some(event), ..read })
                },
            }
        }
    } else if token_is(tokens, position, "stream"@) {
        match stream_block_at(tokens, position + 1) {
            Err(error) => Err(error),
            Ok((stream, after)) => {
                    proof {
                        lemma_blocks_advance(tokens, position + 1);
                    }
                    blocks_at(tokens, after, BlocksSyntax { streams: read.streams.push(stream), ..read })
                },
        }
    } else if token_is(tokens, position, "observable"@) {
        if read.observable is Some {
            Err(ChannelSyntaxError { position: position as usize, failure: SyntaxFailure::DuplicateObservable })
        } else {
            match observable_block_at(tokens, position + 1) {
                Err(error) => Err(error),
                Ok((observable, after)) => {
                    proof {
                        lemma_blocks_advance(tokens, position + 1);
                    }
                    blocks_at(tokens, after, BlocksSyntax { observable: Some(observable), ..read })
                },
            }
        }
    } else {
        Err(expected_at(position, Expectation::Block))
    }
}

/// No block read yet.
pub open spec fn no_blocks() -> BlocksSyntax {
    BlocksSyntax { reply: None, event: None, streams: Seq::empty(), observable: None }
}

/// What a declaration's tokens say: `channel Name contract Contract {`,
/// the operations, then the blocks, of which `reply` is required.
pub open spec fn channel_syntax(tokens: Seq<Seq<char>>) -> Result<ChannelSyntax, ChannelSyntaxError> {
    if !token_is(tokens, 0, "channel"@) {
        Err(expected_at(0, Expectation::Channel))
    } else {
        match identifier_at(tokens, 1) {
            Err(error) => Err(error),
            Ok((name, after_name)) => if !token_is(tokens, after_name, "contract"@) {
                Err(expected_at(after_name, Expectation::Contract))
            } else {
                match identifier_at(tokens, after_name + 1) {
                    Err(error) => Err(error),
                    Ok((contract, after_contract)) => if !token_is(tokens, after_contract, "{"@) {
                        Err(expected_at(after_contract, Expectation::OpenBrace))
                    } else {
                        match operations_at(tokens, after_contract + 1) {
                            Err(error) => Err(error),
                            Ok((operations, after_operations)) => match blocks_at(tokens, after_operations, no_blocks()) {
                                Err(error) => Err(error),
                                Ok(blocks) => match blocks.reply {
                                    None => Err(ChannelSyntaxError { position: 1, failure: SyntaxFailure::MissingReply }),
                                    Some(reply) => Ok(ChannelSyntax {
                                        name,
                                        contract,
                                        operations,
                                        reply,
                                        event: blocks.event,
                                        streams: blocks.streams,
                                        observable: blocks.observable,
                                    }),
                                },
                            },
                        }
                    },
                }
            },
        }
    }
}

// ---------------------------------------------------------------------
// What a read declaration holds

/// The character view of an optional text.
pub open spec fn text_option(text: Option<String>) -> Option<Seq<char>> {
    match text {
        Some(text) => Some(text@),
        None => None,
    }
}

pub open spec fn describes_operation(variant: RequestVariantSpec, syntax: OperationSyntax) -> bool {
    &&& variant.variant_name@ == syntax.name
    &&& variant.payload_type@ == syntax.payload
    &&& text_option(variant.opens) == syntax.opens
}

pub open spec fn describes_operations(variants: Seq<RequestVariantSpec>, syntax: Seq<OperationSyntax>) -> bool {
    &&& variants.len() == syntax.len()
    &&& forall|index: int| 0 <= index < variants.len() ==> describes_operation(#[trigger] variants[index], syntax[index])
}

pub open spec fn describes_reply_variant(variant: ReplyVariantSpec, syntax: ReplyVariantSyntax) -> bool {
    &&& variant.variant_name@ == syntax.name
    &&& text_option(variant.payload_type) == syntax.payload
}

pub open spec fn describes_reply_variants(variants: Seq<ReplyVariantSpec>, syntax: Seq<ReplyVariantSyntax>) -> bool {
    &&& variants.len() == syntax.len()
    &&& forall|index: int| 0 <= index < variants.len() ==> describes_reply_variant(#[trigger] variants[index], syntax[index])
}

pub open spec fn describes_event_variant(variant: EventVariantSpec, syntax: EventVariantSyntax) -> bool {
    &&& variant.variant_name@ == syntax.name
    &&& variant.payload_type@ == syntax.payload
    &&& text_option(variant.belongs) == syntax.belongs
}

pub open spec fn describes_event_variants(variants: Seq<EventVariantSpec>, syntax: Seq<EventVariantSyntax>) -> bool {
    &&& variants.len() == syntax.len()
    &&& forall|index: int| 0 <= index < variants.len() ==> describes_event_variant(#[trigger] variants[index], syntax[index])
}

pub open spec fn describes_stream(stream: StreamBlockSpec, syntax: StreamSyntax) -> bool {
    &&& stream.name@ == syntax.name
    &&& stream.token@ == syntax.token
    &&& stream.opened@ == syntax.opened
    &&& views(stream.events@) == syntax.events
    &&& stream.close@ == syntax.close
}

pub open spec fn describes_streams(streams: Seq<StreamBlockSpec>, syntax: Seq<StreamSyntax>) -> bool {
    &&& streams.len() == syntax.len()
    &&& forall|index: int| 0 <= index < streams.len() ==> describes_stream(#[trigger] streams[index], syntax[index])
}

pub open spec fn describes_observable(observable: ObservableBlockSpec, syntax: ObservableSyntax) -> bool {
    &&& match (observable.filter, syntax.filter) {
        (FilterDecl::Default, None) => true,
        (FilterDecl::Named(name), Some(text)) => name@ == text,
        _ => false,
    }
    &&& observable.operation_event@ == syntax.operation_event
    &&& observable.effect_event@ == syntax.effect_event
}

pub open spec fn describes_reply_block(block: ReplyBlockSpec, syntax: ReplyBlockSyntax) -> bool {
    block.name@ == syntax.name && describes_reply_variants(block.variants@, syntax.variants)
}

pub open spec fn describes_event_block(block: EventBlockSpec, syntax: EventBlockSyntax) -> bool {
    block.name@ == syntax.name && describes_event_variants(block.variants@, syntax.variants)
}

/// A channel holds what its declaration says; its request block is named
/// after the channel, with `Operation` appended.
pub open spec fn describes_channel(channel: ChannelSpec, syntax: ChannelSyntax) -> bool {
    &&& channel.name@ == syntax.name
    &&& channel.contract@ == syntax.contract
    &&& channel.request.name@ == syntax.name + "Operation"@
    &&& describes_operations(channel.request.variants@, syntax.operations)
    &&& describes_reply_block(channel.reply, syntax.reply)
    &&& match (channel.event, syntax.event) {
        (None, None) => true,
        (Some(block), Some(event)) => describes_event_block(block, event),
        _ => false,
    }
    &&& describes_streams(channel.streams@, syntax.streams)
    &&& match (channel.observable, syntax.observable) {
        (None, None) => true,
        (Some(block), Some(observable)) => describes_observable(block, observable),
        _ => false,
    }
}

// ---------------------------------------------------------------------
// Reading

/// A read text, and where reading went on, against what the grammar says.
pub open spec fn text_outcome(
    result: Result<(String, usize), ChannelSyntaxError>,
    expected: Result<(Seq<char>, int), ChannelSyntaxError>,
) -> bool {
    match (result, expected) {
        (Ok((text, after)), Ok((view, end))) => text@ == view && after == end,
        (Err(error), Err(expected_error)) => error == expected_error,
        _ => false,
    }
}

/// Every item reader consumes at least one token.
pub proof fn lemma_items_advance(tokens: Seq<Seq<char>>, position: int)
    ensures
        operation_at(tokens, position) matches Ok((_, end)) ==> end > position,
        reply_variant_at(tokens, position) matches Ok((_, end)) ==> end > position,
        event_variant_at(tokens, position) matches Ok((_, end)) ==> end > position,
        slot_at(tokens, position, "event"@, Expectation::Block) matches Ok((_, end)) ==> end > position,
{
}

fn token_matches(tokens: &Vec<String>, position: usize, text: &str) -> (matches: bool)
    ensures
        matches == token_is(strings_of(tokens@), position as int, text@),
        matches ==> position < tokens@.len(),
        tokens@.len() <= usize::MAX,
{
    if position < tokens.len() {
        str_equal(tokens[position].as_str(), text)
    } else {
        false
    }
}

fn identifier(tokens: &Vec<String>, position: usize) -> (result: Result<(String, usize), ChannelSyntaxError>)
    ensures
        text_outcome(result, identifier_at(strings_of(tokens@), position as int)),
        result matches Ok((_, after)) ==> after <= tokens@.len(),
{
    if position < tokens.len() {
        let token = tokens[position].as_str();
        if token.unicode_len() > 0 {
            let first = token.get_char(0);
            if is_word_char(first) && !('0' <= first && first <= '9') {
                return Ok((token.to_owned(), position + 1));
            }
        }
    }
    Err(expected(position, Expectation::Identifier))
}

fn is_opening_mark(token: &str) -> (opening: bool)
    ensures
        opening == is_opener(token@),
{
    str_equal(token, "(") || str_equal(token, "[") || str_equal(token, "<")
}

fn is_closing_mark(token: &str) -> (closing: bool)
    ensures
        closing == is_closer(token@),
{
    str_equal(token, ")") || str_equal(token, "]") || str_equal(token, ">")
}

/// Reads a type that the mark `stop` ends, as [`type_before`] says.
fn type_ending_at(tokens: &Vec<String>, position: usize, stop: &str) -> (result: Result<(String, usize), ChannelSyntaxError>)
    ensures
        text_outcome(result, type_before(strings_of(tokens@), position as int, stop@)),
        result matches Ok((_, end)) ==> end < tokens@.len(),
{
    let ghost all = strings_of(tokens@);
    let mut index = position;
    let mut depth: usize = 0;
    let mut end: Option<usize> = None;
    while end.is_none() && index < tokens.len()
        invariant
            all == strings_of(tokens@),
            position <= index,
            depth <= index - position,
            end is None ==> balanced_end(all, position as int, 0, stop@) == balanced_end(all, index as int, depth as nat, stop@),
            end matches Some(found) ==> balanced_end(all, position as int, 0, stop@) == Some(found as int) && found < tokens@.len(),
        decreases tokens@.len() - index, (if end is None { 1int } else { 0int }),
    {
        let token = tokens[index].as_str();
        assert(all[index as int] == token@);
        if depth == 0 && str_equal(token, stop) {
            end = Some(index);
        } else if is_opening_mark(token) {
            depth = depth + 1;
            index = index + 1;
        } else if is_closing_mark(token) {
            if depth == 0 {
                return Err(expected(position, Expectation::Type));
            }
            depth = depth - 1;
            index = index + 1;
        } else {
            index = index + 1;
        }
    }
    let end = match end {
        Some(found) => found,
        None => {
            return Err(expected(position, Expectation::Type));
        },
    };
    if end <= position {
        return Err(expected(position, Expectation::Type));
    }
    let mut text = String::new();
    let mut index = position;
    while index < end
        invariant
            all == strings_of(tokens@),
            position <= index <= end,
            end <= tokens@.len(),
            text@ == joined(all.subrange(position as int, index as int)),
        decreases end - index,
    {
        let ghost before = all.subrange(position as int, index as int);
        assert(all.subrange(position as int, index + 1).drop_last() =~= before);
        assert(all[index as int] == tokens@[index as int]@);
        text = text.concat(tokens[index].as_str());
        index = index + 1;
    }
    Ok((text, end))
}

/// Reads `operation Variant(Type)`, then optionally `opens Stream`.
fn operation(tokens: &Vec<String>, position: usize) -> (result: Result<(RequestVariantSpec, usize), ChannelSyntaxError>)
    ensures
        match (result, operation_at(strings_of(tokens@), position as int)) {
            (Ok((variant, after)), Ok((syntax, end))) => describes_operation(variant, syntax) && after == end,
            (Err(error), Err(expected_error)) => error == expected_error,
            _ => false,
        },
        result matches Ok((_, after)) ==> after <= tokens@.len(),
{
    if !token_matches(tokens, position, "operation") {
        return Err(expected(position, Expectation::Operation));
    }
    let (name, after_name) = match identifier(tokens, position + 1) {
        Ok(found) => found,
        Err(error) => return Err(error),
    };
    if !token_matches(tokens, after_name, "(") {
        return Err(expected(after_name, Expectation::OpenParenthesis));
    }
    let (payload, close) = match type_ending_at(tokens, after_name + 1, ")") {
        Ok(found) => found,
        Err(error) => return Err(error),
    };
    if close + 1 < tokens.len() && token_matches(tokens, close + 1, "opens") {
        let (stream, after) = match identifier(tokens, close + 2) {
            Ok(found) => found,
            Err(error) => return Err(error),
        };
        Ok((RequestVariantSpec { variant_name: name, payload_type: payload, opens: Some(stream) }, after))
    } else {
        Ok((RequestVariantSpec { variant_name: name, payload_type: payload, opens: None }, close + 1))
    }
}

/// Reads `Variant` or `Variant(Type)`.
fn reply_variant(tokens: &Vec<String>, position: usize) -> (result: Result<(ReplyVariantSpec, usize), ChannelSyntaxError>)
    ensures
        match (result, reply_variant_at(strings_of(tokens@), position as int)) {
            (Ok((variant, after)), Ok((syntax, end))) => describes_reply_variant(variant, syntax) && after == end,
            (Err(error), Err(expected_error)) => error == expected_error,
            _ => false,
        },
        result matches Ok((_, after)) ==> after <= tokens@.len(),
{
    let (name, after_name) = match identifier(tokens, position) {
        Ok(found) => found,
        Err(error) => return Err(error),
    };
    if token_matches(tokens, after_name, "(") {
        let (payload, close) = match type_ending_at(tokens, after_name + 1, ")") {
            Ok(found) => found,
            Err(error) => return Err(error),
        };
        Ok((ReplyVariantSpec { variant_name: name, payload_type: Some(payload) }, close + 1))
    } else {
        Ok((ReplyVariantSpec { variant_name: name, payload_type: None }, after_name))
    }
}

/// Reads `Variant(Type)`, then optionally `belongs Stream`.
fn event_variant(tokens: &Vec<String>, position: usize) -> (result: Result<(EventVariantSpec, usize), ChannelSyntaxError>)
    ensures
        match (result, event_variant_at(strings_of(tokens@), position as int)) {
            (Ok((variant, after)), Ok((syntax, end))) => describes_event_variant(variant, syntax) && after == end,
            (Err(error), Err(expected_error)) => error == expected_error,
            _ => false,
        },
        result matches Ok((_, after)) ==> after <= tokens@.len(),
{
    let (name, after_name) = match identifier(tokens, position) {
        Ok(found) => found,
        Err(error) => return Err(error),
    };
    if !token_matches(tokens, after_name, "(") {
        return Err(expected(after_name, Expectation::OpenParenthesis));
    }
    let (payload, close) = match type_ending_at(tokens, after_name + 1, ")") {
        Ok(found) => found,
        Err(error) => return Err(error),
    };
    if close + 1 < tokens.len() && token_matches(tokens, close + 1, "belongs") {
        let (stream, after) = match identifier(tokens, close + 2) {
            Ok(found) => found,
            Err(error) => return Err(error),
        };
        Ok((EventVariantSpec { variant_name: name, payload_type: payload, belongs: Some(stream) }, after))
    } else {
        Ok((EventVariantSpec { variant_name: name, payload_type: payload, belongs: None }, close + 1))
    }
}

/// Reads the operations up to and with the closing brace.
fn operations(tokens: &Vec<String>, position: usize) -> (result: Result<(Vec<RequestVariantSpec>, usize), ChannelSyntaxError>)
    ensures
        match (result, operations_at(strings_of(tokens@), position as int)) {
            (Ok((variants, after)), Ok((syntax, end))) => describes_operations(variants@, syntax) && after == end,
            (Err(error), Err(expected_error)) => error == expected_error,
            _ => false,
        },
        result matches Ok((_, after)) ==> after <= tokens@.len(),
    decreases tokens@.len() - position,
{
    if token_matches(tokens, position, "}") {
        return Ok((Vec::new(), position + 1));
    }
    let (first, after) = match operation(tokens, position) {
        Ok(found) => found,
        Err(error) => return Err(error),
    };
    proof {
        lemma_items_advance(strings_of(tokens@), position as int);
    }
    if token_matches(tokens, after, "}") {
        let mut variants: Vec<RequestVariantSpec> = Vec::new();
        variants.push(first);
        return Ok((variants, after + 1));
    }
    if !token_matches(tokens, after, ",") {
        return Err(expected(after, Expectation::Comma));
    }
    let (mut rest, end) = match operations(tokens, after + 1) {
        Ok(found) => found,
        Err(error) => return Err(error),
    };
    let ghost rest_view = rest@;
    rest.insert(0, first);
    proof {
        let syntax = operations_at(strings_of(tokens@), position as int);
        if let Ok((all, _)) = syntax {
            assert forall|index: int| 0 <= index < rest@.len() implies describes_operation(#[trigger] rest@[index], all[index]) by {
                if index > 0 {
                    assert(rest@[index] == rest_view[index - 1]);
                }
            }
        }
    }
    Ok((rest, end))
}

/// Reads the reply variants up to and with the closing brace.
fn reply_variants(tokens: &Vec<String>, position: usize) -> (result: Result<(Vec<ReplyVariantSpec>, usize), ChannelSyntaxError>)
    ensures
        match (result, reply_variants_at(strings_of(tokens@), position as int)) {
            (Ok((variants, after)), Ok((syntax, end))) => describes_reply_variants(variants@, syntax) && after == end,
            (Err(error), Err(expected_error)) => error == expected_error,
            _ => false,
        },
        result matches Ok((_, after)) ==> after <= tokens@.len(),
    decreases tokens@.len() - position,
{
    if token_matches(tokens, position, "}") {
        return Ok((Vec::new(), position + 1));
    }
    let (first, after) = match reply_variant(tokens, position) {
        Ok(found) => found,
        Err(error) => return Err(error),
    };
    proof {
        lemma_items_advance(strings_of(tokens@), position as int);
    }
    if token_matches(tokens, after, "}") {
        let mut variants: Vec<ReplyVariantSpec> = Vec::new();
        variants.push(first);
        return Ok((variants, after + 1));
    }
    if !token_matches(tokens, after, ",") {
        return Err(expected(after, Expectation::Comma));
    }
    let (mut rest, end) = match reply_variants(tokens, after + 1) {
        Ok(found) => found,
        Err(error) => return Err(error),
    };
    let ghost rest_view = rest@;
    rest.insert(0, first);
    proof {
        let syntax = reply_variants_at(strings_of(tokens@), position as int);
        if let Ok((all, _)) = syntax {
            assert forall|index: int| 0 <= index < rest@.len() implies describes_reply_variant(#[trigger] rest@[index], all[index]) by {
                if index > 0 {
                    assert(rest@[index] == rest_view[index - 1]);
                }
            }
        }
    }
    Ok((rest, end))
}

/// Reads the event variants up to and with the closing brace.
fn event_variants(tokens: &Vec<String>, position: usize) -> (result: Result<(Vec<EventVariantSpec>, usize), ChannelSyntaxError>)
    ensures
        match (result, event_variants_at(strings_of(tokens@), position as int)) {
            (Ok((variants, after)), Ok((syntax, end))) => describes_event_variants(variants@, syntax) && after == end,
            (Err(error), Err(expected_error)) => error == expected_error,
            _ => false,
        },
        result matches Ok((_, after)) ==> after <= tokens@.len(),
    decreases tokens@.len() - position,
{
    if token_matches(tokens, position, "}") {
        return Ok((Vec::new(), position + 1));
    }
    let (first, after) = match event_variant(tokens, position) {
        Ok(found) => found,
        Err(error) => return Err(error),
    };
    proof {
        lemma_items_advance(strings_of(tokens@), position as int);
    }
    if token_matches(tokens, after, "}") {
        let mut variants: Vec<EventVariantSpec> = Vec::new();
        variants.push(first);
        return Ok((variants, after + 1));
    }
    if !token_matches(tokens, after, ",") {
        return Err(expected(after, Expectation::Comma));
    }
    let (mut rest, end) = match event_variants(tokens, after + 1) {
        Ok(found) => found,
        Err(error) => return Err(error),
    };
    let ghost rest_view = rest@;
    rest.insert(0, first);
    proof {
        let syntax = event_variants_at(strings_of(tokens@), position as int);
        if let Ok((all, _)) = syntax {
            assert forall|index: int| 0 <= index < rest@.len() implies describes_event_variant(#[trigger] rest@[index], all[index]) by {
                if index > 0 {
                    assert(rest@[index] == rest_view[index - 1]);
                }
            }
        }
    }
    Ok((rest, end))
}

/// Reads `keyword Identifier ;`.
fn slot(tokens: &Vec<String>, position: usize, keyword: &str, what: Expectation) -> (result: Result<(String, usize), ChannelSyntaxError>)
    ensures
        text_outcome(result, slot_at(strings_of(tokens@), position as int, keyword@, what)),
        result matches Ok((_, after)) ==> after <= tokens@.len(),
{
    if !token_matches(tokens, position, keyword) {
        return Err(expected(position, what));
    }
    let (name, after) = match identifier(tokens, position + 1) {
        Ok(found) => found,
        Err(error) => return Err(error),
    };
    if token_matches(tokens, after, ";") {
        Ok((name, after + 1))
    } else {
        Err(expected(after, Expectation::Semicolon))
    }
}

/// Reads the `event Variant;` slots of a stream block.
fn stream_events(tokens: &Vec<String>, position: usize) -> (result: Result<(Vec<String>, usize), ChannelSyntaxError>)
    ensures
        match (result, stream_events_at(strings_of(tokens@), position as int)) {
            (Ok((events, after)), Ok((syntax, end))) => views(events@) == syntax && after == end,
            (Err(error), Err(expected_error)) => error == expected_error,
            _ => false,
        },
        result matches Ok((_, after)) ==> after >= position && (after > position ==> after <= tokens@.len()),
    decreases tokens@.len() - position,
{
    if !token_matches(tokens, position, "event") {
        return Ok((Vec::new(), position));
    }
    let (first, after) = match slot(tokens, position, "event", Expectation::Block) {
        Ok(found) => found,
        Err(error) => return Err(error),
    };
    proof {
        lemma_items_advance(strings_of(tokens@), position as int);
    }
    let (mut rest, end) = match stream_events(tokens, after) {
        Ok(found) => found,
        Err(error) => return Err(error),
    };
    let ghost rest_view = rest@;
    rest.insert(0, first);
    proof {
        assert(views(rest@) =~= seq![first@] + views(rest_view));
    }
    Ok((rest, end))
}

/// Reads a stream block after its keyword.
fn stream_block(tokens: &Vec<String>, position: usize) -> (result: Result<(StreamBlockSpec, usize), ChannelSyntaxError>)
    ensures
        match (result, stream_block_at(strings_of(tokens@), position as int)) {
            (Ok((stream, after)), Ok((syntax, end))) => describes_stream(stream, syntax) && after == end,
            (Err(error), Err(expected_error)) => error == expected_error,
            _ => false,
        },
        result matches Ok((_, after)) ==> after <= tokens@.len(),
{
    let (name, after_name) = match identifier(tokens, position) {
        Ok(found) => found,
        Err(error) => return Err(error),
    };
    if !token_matches(tokens, after_name, "{") {
        return Err(expected(after_name, Expectation::OpenBrace));
    }
    if !token_matches(tokens, after_name + 1, "token") {
        return Err(expected(after_name + 1, Expectation::Token));
    }
    let (token, semicolon) = match type_ending_at(tokens, after_name + 2, ";") {
        Ok(found) => found,
        Err(error) => return Err(error),
    };
    let (opened, after_opened) = match slot(tokens, semicolon + 1, "opened", Expectation::Opened) {
        Ok(found) => found,
        Err(error) => return Err(error),
    };
    let (events, after_events) = match stream_events(tokens, after_opened) {
        Ok(found) => found,
        Err(error) => return Err(error),
    };
    if events.len() == 0 {
        return Err(ChannelSyntaxError { position: after_events, failure: SyntaxFailure::StreamWithoutEvents });
    }
    let (close, after_close) = match slot(tokens, after_events, "close", Expectation::Close) {
        Ok(found) => found,
        Err(error) => return Err(error),
    };
    if !token_matches(tokens, after_close, "}") {
        return Err(expected(after_close, Expectation::CloseBrace));
    }
    Ok((StreamBlockSpec { name, token, opened, events, close }, after_close + 1))
}

/// Reads an observable block after its keyword.
fn observable_block(tokens: &Vec<String>, position: usize) -> (result: Result<(ObservableBlockSpec, usize), ChannelSyntaxError>)
    ensures
        match (result, observable_block_at(strings_of(tokens@), position as int)) {
            (Ok((observable, after)), Ok((syntax, end))) => describes_observable(observable, syntax) && after == end,
            (Err(error), Err(expected_error)) => error == expected_error,
            _ => false,
        },
        result matches Ok((_, after)) ==> after <= tokens@.len(),
{
    if !token_matches(tokens, position, "{") {
        return Err(expected(position, Expectation::OpenBrace));
    }
    if !token_matches(tokens, position + 1, "filter") {
        return Err(expected(position + 1, Expectation::Filter));
    }
    let (filter, after_filter) = if token_matches(tokens, position + 2, "default") {
        (FilterDecl::Default, position + 3)
    } else {
        match identifier(tokens, position + 2) {
            Ok((name, after)) => (FilterDecl::Named(name), after),
            Err(error) => return Err(error),
        }
    };
    if !token_matches(tokens, after_filter, ";") {
        return Err(expected(after_filter, Expectation::Semicolon));
    }
    let (operation_event, after_operation) = match slot(tokens, after_filter + 1, "operation_event", Expectation::OperationEvent) {
        Ok(found) => found,
        Err(error) => return Err(error),
    };
    let (effect_event, after_effect) = match slot(tokens, after_operation, "effect_event", Expectation::EffectEvent) {
        Ok(found) => found,
        Err(error) => return Err(error),
    };
    if !token_matches(tokens, after_effect, "}") {
        return Err(expected(after_effect, Expectation::CloseBrace));
    }
    Ok((ObservableBlockSpec { filter, operation_event, effect_event }, after_effect + 1))
}

/// Reads a reply block after its keyword.
fn reply_block(tokens: &Vec<String>, position: usize) -> (result: Result<(ReplyBlockSpec, usize), ChannelSyntaxError>)
    ensures
        match (result, reply_block_at(strings_of(tokens@), position as int)) {
            (Ok((block, after)), Ok((syntax, end))) => describes_reply_block(block, syntax) && after == end,
            (Err(error), Err(expected_error)) => error == expected_error,
            _ => false,
        },
        result matches Ok((_, after)) ==> after <= tokens@.len(),
{
    let (name, after_name) = match identifier(tokens, position) {
        Ok(found) => found,
        Err(error) => return Err(error),
    };
    if !token_matches(tokens, after_name, "{") {
        return Err(expected(after_name, Expectation::OpenBrace));
    }
    let (variants, after) = match reply_variants(tokens, after_name + 1) {
        Ok(found) => found,
        Err(error) => return Err(error),
    };
    Ok((ReplyBlockSpec { name, variants }, after))
}

/// Reads an event block after its keyword.
fn event_block(tokens: &Vec<String>, position: usize) -> (result: Result<(EventBlockSpec, usize), ChannelSyntaxError>)
    ensures
        match (result, event_block_at(strings_of(tokens@), position as int)) {
            (Ok((block, after)), Ok((syntax, end))) => describes_event_block(block, syntax) && after == end,
            (Err(error), Err(expected_error)) => error == expected_error,
            _ => false,
        },
        result matches Ok((_, after)) ==> after <= tokens@.len(),
{
    let (name, after_name) = match identifier(tokens, position) {
        Ok(found) => found,
        Err(error) => return Err(error),
    };
    if !token_matches(tokens, after_name, "{") {
        return Err(expected(after_name, Expectation::OpenBrace));
    }
    let (variants, after) = match event_variants(tokens, after_name + 1) {
        Ok(found) => found,
        Err(error) => return Err(error),
    };
    Ok((EventBlockSpec { name, variants }, after))
}

/// The blocks read so far hold what `read` says.
pub open spec fn describes_blocks(
    reply: Option<ReplyBlockSpec>,
    event: Option<EventBlockSpec>,
    streams: Seq<StreamBlockSpec>,
    observable: Option<ObservableBlockSpec>,
    read: BlocksSyntax,
) -> bool {
    &&& match (reply, read.reply) {
        (None, None) => true,
        (Some(block), Some(syntax)) => describes_reply_block(block, syntax),
        _ => false,
    }
    &&& match (event, read.event) {
        (None, None) => true,
        (Some(block), Some(syntax)) => describes_event_block(block, syntax),
        _ => false,
    }
    &&& describes_streams(streams, read.streams)
    &&& match (observable, read.observable) {
        (None, None) => true,
        (Some(block), Some(syntax)) => describes_observable(block, syntax),
        _ => false,
    }
}

/// Reads a channel declaration, as [`channel_syntax`] says of its tokens:
/// the declared channel, or the first place where the text departs from
/// the grammar, and why.
pub fn parse_channel(text: &str) -> (result: Result<ChannelSpec, ChannelSyntaxError>)
    ensures
        match channel_syntax(tokens_of(text@)) {
            Ok(syntax) => result matches Ok(channel) && describes_channel(channel, syntax),
            Err(error) => result == Err::<ChannelSpec, ChannelSyntaxError>(error),
        },
{
    let tokens = tokenize(text);
    let ghost all = strings_of(tokens@);
    assert(all == tokens_of(text@));
    if !token_matches(&tokens, 0, "channel") {
        return Err(expected(0, Expectation::Channel));
    }
    let (name, after_name) = match identifier(&tokens, 1) {
        Ok(found) => found,
        Err(error) => return Err(error),
    };
    if !token_matches(&tokens, after_name, "contract") {
        return Err(expected(after_name, Expectation::Contract));
    }
    let (contract, after_contract) = match identifier(&tokens, after_name + 1) {
        Ok(found) => found,
        Err(error) => return Err(error),
    };
    if !token_matches(&tokens, after_contract, "{") {
        return Err(expected(after_contract, Expectation::OpenBrace));
    }
    let (operations, after_operations) = match operations(&tokens, after_contract + 1) {
        Ok(found) => found,
        Err(error) => return Err(error),
    };
    let ghost start = after_operations;
    let mut position = after_operations;
    let mut reply: Option<ReplyBlockSpec> = None;
    let mut event: Option<EventBlockSpec> = None;
    let mut streams: Vec<StreamBlockSpec> = Vec::new();
    let mut observable: Option<ObservableBlockSpec> = None;
    let ghost mut read = no_blocks();
    while position < tokens.len()
        invariant
            all == strings_of(tokens@),
            all == tokens_of(text@),
            blocks_at(all, start as int, no_blocks()) == blocks_at(all, position as int, read),
            blocks_at(all, start as int, no_blocks()) matches Err(error) ==> channel_syntax(all) == Err::<ChannelSyntax, ChannelSyntaxError>(error),
            describes_blocks(reply, event, streams@, observable, read),
        decreases tokens@.len() - position,
    {
        proof {
            lemma_blocks_advance(all, position + 1);
            lemma_reply_variants_advance(all, position + 3);
            lemma_event_variants_advance(all, position + 3);
        }
        if token_matches(&tokens, position, "reply") {
            if reply.is_some() {
                return Err(ChannelSyntaxError { position, failure: SyntaxFailure::DuplicateReply });
            }
            let (block, after) = match reply_block(&tokens, position + 1) {
                Ok(found) => found,
                Err(error) => return Err(error),
            };
            proof {
                if let Ok((syntax, _)) = reply_block_at(all, position + 1) {
                    read = BlocksSyntax { reply: Some(syntax), ..read };
                }
            }
            reply = Some(block);
            position = after;
        } else if token_matches(&tokens, position, "event") {
            if event.is_some() {
                return Err(ChannelSyntaxError { position, failure: SyntaxFailure::DuplicateEvent });
            }
            let (block, after) = match event_block(&tokens, position + 1) {
                Ok(found) => found,
                Err(error) => return Err(error),
            };
            proof {
                if let Ok((syntax, _)) = event_block_at(all, position + 1) {
                    read = BlocksSyntax { event: Some(syntax), ..read };
                }
            }
            event = Some(block);
            position = after;
        } else if token_matches(&tokens, position, "stream") {
            let (block, after) = match stream_block(&tokens, position + 1) {
                Ok(found) => found,
                Err(error) => return Err(error),
            };
            let ghost streams_before = streams@;
            let ghost read_before = read;
            proof {
                if let Ok((syntax, _)) = stream_block_at(all, position + 1) {
                    read = BlocksSyntax { streams: read.streams.push(syntax), ..read };
                }
            }
            streams.push(block);
            proof {
                assert forall|index: int| 0 <= index < streams@.len() implies describes_stream(#[trigger] streams@[index], read.streams[index]) by {
                    if index < streams_before.len() {
                        assert(streams@[index] == streams_before[index]);
                        assert(read.streams[index] == read_before.streams[index]);
                    }
                }
            }
            position = after;
        } else if token_matches(&tokens, position, "observable") {
            if observable.is_some() {
                return Err(ChannelSyntaxError { position, failure: SyntaxFailure::DuplicateObservable });
            }
            let (block, after) = match observable_block(&tokens, position + 1) {
                Ok(found) => found,
                Err(error) => return Err(error),
            };
            proof {
                if let Ok((syntax, _)) = observable_block_at(all, position + 1) {
                    read = BlocksSyntax { observable: Some(syntax), ..read };
                }
            }
            observable = Some(block);
            position = after;
        } else {
            return Err(expected(position, Expectation::Block));
        }
    }
    let reply = match reply {
        Some(block) => block,
        None => {
            return Err(ChannelSyntaxError { position: 1, failure: SyntaxFailure::MissingReply });
        },
    };
    let request_name = name.clone().concat("Operation");
    Ok(ChannelSpec {
        name,
        contract,
        request: RequestBlockSpec { name: request_name, variants: operations },
        reply,
        event,
        streams,
        observable,
    })
}

// ---------------------------------------------------------------------
// Laws of the grammar

/// The `slot`-th of the slots from `position` on is `event Name ;`, naming
/// `names[slot]`.
pub open spec fn event_slot_names(tokens: Seq<Seq<char>>, position: int, names: Seq<Seq<char>>, slot: int) -> bool {
    &&& tokens[position + 3 * slot] == "event"@
    &&& tokens[position + 3 * slot + 1] == names[slot]
    &&& is_identifier(names[slot])
    &&& tokens[position + 3 * slot + 2] == ";"@
}

/// From `position` on, the tokens are `event Name ;` once for each of
/// `names`, in order, and the token after the last slot is not `event`.
pub open spec fn event_slots_at(tokens: Seq<Seq<char>>, position: int, names: Seq<Seq<char>>) -> bool {
    &&& 0 <= position
    &&& position + 3 * names.len() <= tokens.len()
    &&& forall|slot: int| 0 <= slot < names.len() ==> #[trigger] event_slot_names(tokens, position, names, slot)
    &&& !token_is(tokens, position + 3 * names.len(), "event"@)
}

/// A stream block keeps every one of its consecutive event slots: the
/// events read are the names of all the slots, in order, and reading
/// stops right after the last slot.
pub proof fn lemma_stream_events_are_all_slots(tokens: Seq<Seq<char>>, position: int, names: Seq<Seq<char>>)
    requires
        event_slots_at(tokens, position, names),
    ensures
        stream_events_at(tokens, position) == Ok::<(Seq<Seq<char>>, int), ChannelSyntaxError>(
            (names, position + 3 * names.len()),
        ),
    decreases names.len(),
{
    if names.len() > 0 {
        assert(event_slot_names(tokens, position, names, 0));
        assert(tokens[position] == "event"@);
        assert(tokens[position + 2] == ";"@);
        assert(token_is(tokens, position, "event"@));
        assert(identifier_at(tokens, position + 1) == Ok::<(Seq<char>, int), ChannelSyntaxError>((names[0], position + 2)));
        assert(token_is(tokens, position + 2, ";"@));
        assert(slot_at(tokens, position, "event"@, Expectation::Block) == Ok::<(Seq<char>, int), ChannelSyntaxError>(
            (names[0], position + 3),
        ));
        let rest = names.drop_first();
        assert forall|slot: int| 0 <= slot < rest.len() implies #[trigger] event_slot_names(tokens, position + 3, rest, slot) by {
            let next = slot + 1;
            assert(event_slot_names(tokens, position, names, next));
            assert(position + 3 * next == (position + 3) + 3 * slot);
            assert(rest[slot] == names[next]);
        }
        assert((position + 3) + 3 * rest.len() == position + 3 * names.len());
        assert(0 <= position + 3);
        assert(position + 3 + 3 * rest.len() <= tokens.len());
        assert(!token_is(tokens, position + 3 + 3 * rest.len(), "event"@));
        assert(event_slots_at(tokens, position + 3, rest));
        lemma_stream_events_are_all_slots(tokens, position + 3, rest);
        assert(seq![names[0]] + rest =~= names);
        assert(stream_events_at(tokens, position + 3) == Ok::<(Seq<Seq<char>>, int), ChannelSyntaxError>(
            (rest, position + 3 + 3 * rest.len()),
        ));
    } else {
        assert(names =~= Seq::<Seq<char>>::empty());
    }
}

} // verus!
