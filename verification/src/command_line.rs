//! The decisions of the thin command-line client: one text argument in,
//! one typed frame to the daemon, one reply out.
//!
//! Reading files, the environment and sockets happens around this
//! module; here are the argument rule, the routing of a request head to
//! the working or meta contract, the socket variables a binary name
//! implies, the frame-size check and the unpacking of a reply.

use std::marker::PhantomData;

use vstd::prelude::*;

use crate::binding::{ContractBinding, WireRouteError};
use crate::exchange::{ExchangeIdentifier, ExchangeLane, LaneSequence, SessionEpoch};
use crate::frame::{
    from_be_bytes, BoundExchangeFrame, BoundStreamingFrame, ExchangeFrameBody, StreamingFrameBody,
};
use crate::log_variant::LogVariant;
use crate::non_empty::NonEmpty;
use crate::operation_heads::SignalOperationHeads;
use crate::reply::{Reply, SubReply};
use crate::request::Request;
use crate::search::{first_index, is_first_index, lemma_found_first, lemma_found_none, no_index};
use crate::text::{
    ascii_uppercase, has_prefix, heads_contain, is_ascii_alphanumeric, is_unicode_whitespace,
    is_whitespace, push_char, starts_with, str_equal, texts_of,
};

verus! {

/// The daemon socket a request goes to.
#[derive(Debug, Clone, Copy, PartialEq, Eq, Structural)]
pub enum CommandLineSocket {
    Working,
    Meta,
}

/// Refusal to route a request head.
#[derive(Debug, Clone, PartialEq, Eq)]
pub enum CommandLineRouteError {
    /// Neither contract declares the head.
    UnknownRequestHead { head: String },
    /// Both contracts declare the head.
    AmbiguousRequestHead { head: String },
}

impl CommandLineRouteError {
    /// The human-readable description of the refusal.
    pub fn message(&self) -> (text: String)
        ensures
            match self {
                CommandLineRouteError::UnknownRequestHead { head } => text@ == "unknown request head: "@ + head@,
                CommandLineRouteError::AmbiguousRequestHead { head } => text@
                    == "request head appears in both working and meta contracts: "@ + head@,
            },
    {
        match self {
            CommandLineRouteError::UnknownRequestHead { head } => {
                String::from_str("unknown request head: ").concat(head.as_str())
            },
            CommandLineRouteError::AmbiguousRequestHead { head } => {
                String::from_str("request head appears in both working and meta contracts: ").concat(head.as_str())
            },
        }
    }
}

/// Refusal of the command-line arguments.
#[derive(Debug, Clone, PartialEq, Eq)]
pub enum SingleArgumentError {
    /// Not exactly one argument followed the program name.
    WrongArgumentCount { program: String, found: usize },
    /// The one argument is flag-style.
    FlagArgument { program: String, argument: String },
}

/// Failure of a command-line invocation.
#[allow(inconsistent_fields)]
#[derive(Debug, Clone, PartialEq, Eq)]
pub enum CommandLineError {
    Argument(SingleArgumentError),
    MissingSocket { variable: String },
    Route { reason: String },
    InvalidRequest { reason: String },
    InvalidReply { reason: String },
    InputOutput { reason: String },
    SignalFrame { reason: String },
    FrameTooLarge { found: usize, limit: usize },
    UnexpectedFrame { expected: &'static str, got: String },
    RequestRejected { reason: String },
    InvalidRoute(WireRouteError),
    ReplyExchangeMismatch { expected: ExchangeIdentifier, found: ExchangeIdentifier },
}

/// The process exit status of a failure: usage errors (bad arguments,
/// unroutable or unreadable text) give 64, an unavailable service
/// (missing socket, input/output) gives 69, and a protocol failure gives
/// 70.
pub open spec fn exit_status(error: CommandLineError) -> u8 {
    match error {
        CommandLineError::Argument(_) | CommandLineError::Route { .. }
        | CommandLineError::InvalidRequest { .. } | CommandLineError::InvalidReply { .. } => 64,
        CommandLineError::MissingSocket { .. } | CommandLineError::InputOutput { .. } => 69,
        _ => 70,
    }
}

impl CommandLineError {
    /// The process exit status of the failure.
    pub fn exit_code(&self) -> (code: u8)
        ensures
            code == exit_status(*self),
    {
        match self {
            CommandLineError::Argument(_)
            | CommandLineError::Route { .. }
            | CommandLineError::InvalidRequest { .. }
            | CommandLineError::InvalidReply { .. } => 64,
            CommandLineError::MissingSocket { .. } | CommandLineError::InputOutput { .. } => 69,
            CommandLineError::SignalFrame { .. }
            | CommandLineError::FrameTooLarge { .. }
            | CommandLineError::UnexpectedFrame { .. }
            | CommandLineError::RequestRejected { .. }
            | CommandLineError::InvalidRoute(_)
            | CommandLineError::ReplyExchangeMismatch { .. } => 70,
        }
    }

    /// An input/output failure, with its description.
    pub fn input_output(reason: String) -> (failure: Self)
        ensures
            failure matches CommandLineError::InputOutput { reason: described } && described@ == reason@,
    {
        CommandLineError::InputOutput { reason }
    }

    /// A frame failure, with its description.
    pub fn signal_frame(reason: String) -> (failure: Self)
        ensures
            failure matches CommandLineError::SignalFrame { reason: described } && described@ == reason@,
    {
        CommandLineError::SignalFrame { reason }
    }

    /// Request text that could not be read, with the description of why.
    pub fn invalid_request(reason: String) -> (failure: Self)
        ensures
            failure matches CommandLineError::InvalidRequest { reason: described } && described@ == reason@,
    {
        CommandLineError::InvalidRequest { reason }
    }

    /// A routing refusal, described.
    pub fn route(error: CommandLineRouteError) -> (failure: Self)
        ensures
            failure matches CommandLineError::Route { reason } && match error {
                CommandLineRouteError::UnknownRequestHead { head } => reason@ == "unknown request head: "@ + head@,
                CommandLineRouteError::AmbiguousRequestHead { head } => reason@
                    == "request head appears in both working and meta contracts: "@ + head@,
            },
    {
        CommandLineError::Route { reason: error.message() }
    }
}

impl From<SingleArgumentError> for CommandLineError {
    fn from(error: SingleArgumentError) -> (failure: Self) {
        CommandLineError::Argument(error)
    }
}

impl vstd::std_specs::convert::FromSpecImpl<SingleArgumentError> for CommandLineError {
    open spec fn obeys_from_spec() -> bool {
        true
    }

    open spec fn from_spec(error: SingleArgumentError) -> Self {
        CommandLineError::Argument(error)
    }
}

impl From<WireRouteError> for CommandLineError {
    fn from(error: WireRouteError) -> (failure: Self) {
        CommandLineError::InvalidRoute(error)
    }
}

impl vstd::std_specs::convert::FromSpecImpl<WireRouteError> for CommandLineError {
    open spec fn obeys_from_spec() -> bool {
        true
    }

    open spec fn from_spec(error: WireRouteError) -> Self {
        CommandLineError::InvalidRoute(error)
    }
}

// ---------------------------------------------------------------------
// The single argument

/// A flag-style argument begins with `--`.
pub open spec fn is_flag(text: Seq<char>) -> bool {
    text.len() >= 2 && text[0] == '-' && text[1] == '-'
}

/// The one text argument of a thin client.
#[derive(Debug, Clone, PartialEq, Eq)]
pub struct SingleArgument {
    value: String,
}

impl View for SingleArgument {
    type V = Seq<char>;

    closed spec fn view(&self) -> Seq<char> {
        self.value@
    }
}

impl SingleArgument {
    /// The argument after the program name; `arguments` starts with the
    /// program name, `signal-cli` when absent.
    pub fn from_arguments(arguments: Vec<String>) -> (result: Result<Self, SingleArgumentError>)
        ensures
            arguments@.len() == 0 ==> (result matches Err(
                SingleArgumentError::WrongArgumentCount { program, found },
            ) && program@ == "signal-cli"@ && found == 0),
            arguments@.len() > 0 ==> single_argument_outcome(
                arguments@[0]@,
                views_of(arguments@.drop_first()),
                result,
            ),
    {
        let mut arguments = arguments;
        if arguments.len() == 0 {
            return Err(SingleArgumentError::WrongArgumentCount { program: String::from_str("signal-cli"), found: 0 });
        }
        let ghost given = arguments@;
        let program = arguments.remove(0);
        assert(arguments@ =~= given.drop_first());
        Self::from_program_and_values(program, arguments)
    }

    /// Accepts exactly one value that is not flag-style.
    pub fn from_program_and_values(program: String, values: Vec<String>) -> (result: Result<Self, SingleArgumentError>)
        ensures
            single_argument_outcome(program@, views_of(values@), result),
    {
        if values.len() != 1 {
            return Err(SingleArgumentError::WrongArgumentCount { program, found: values.len() });
        }
        let mut values = values;
        let value = values.remove(0);
        let text = value.as_str();
        if text.unicode_len() >= 2 && text.get_char(0) == '-' && text.get_char(1) == '-' {
            let argument = value.clone();
            return Err(SingleArgumentError::FlagArgument { program, argument });
        }
        Ok(SingleArgument { value })
    }

    pub fn as_str(&self) -> (text: &str)
        ensures
            text@ == self@,
    {
        self.value.as_str()
    }

    pub fn into_string(self) -> (text: String)
        ensures
            text@ == self@,
    {
        self.value
    }
}

/// The character views of a list of texts.
pub open spec fn views_of(texts: Seq<String>) -> Seq<Seq<char>> {
    texts.map_values(|text: String| text@)
}

/// The outcome of the single-argument rule for `program` and `values`:
/// exactly one value, not flag-style.
pub open spec fn single_argument_outcome(
    program: Seq<char>,
    values: Seq<Seq<char>>,
    result: Result<SingleArgument, SingleArgumentError>,
) -> bool {
    if values.len() != 1 {
        result matches Err(SingleArgumentError::WrongArgumentCount { program: named, found }) && named@
            == program && found == values.len()
    } else if is_flag(values[0]) {
        result matches Err(SingleArgumentError::FlagArgument { program: named, argument }) && named@
            == program && argument@ == values[0]
    } else {
        result matches Ok(argument) && argument@ == values[0]
    }
}

// ---------------------------------------------------------------------
// Routing

/// Which socket a request head goes to, given the heads of the working
/// and meta contracts.
pub open spec fn route_outcome(
    working: Seq<&str>,
    meta: Seq<&str>,
    head: Seq<char>,
    result: Result<CommandLineSocket, CommandLineRouteError>,
) -> bool {
    let in_working = texts_of(working).contains(head);
    let in_meta = texts_of(meta).contains(head);
    if in_working && !in_meta {
        result == Ok::<CommandLineSocket, CommandLineRouteError>(CommandLineSocket::Working)
    } else if !in_working && in_meta {
        result == Ok::<CommandLineSocket, CommandLineRouteError>(CommandLineSocket::Meta)
    } else if in_working && in_meta {
        result matches Err(CommandLineRouteError::AmbiguousRequestHead { head: named }) && named@ == head
    } else {
        result matches Err(CommandLineRouteError::UnknownRequestHead { head: named }) && named@ == head
    }
}

/// Which socket a request head goes to, as the client reports it: the
/// socket, or the routing refusal as a message.
pub open spec fn head_route_outcome(
    working: Seq<&str>,
    meta: Seq<&str>,
    head: Seq<char>,
    result: Result<CommandLineSocket, CommandLineError>,
) -> bool {
    let in_working = texts_of(working).contains(head);
    let in_meta = texts_of(meta).contains(head);
    if in_working && !in_meta {
        result == Ok::<CommandLineSocket, CommandLineError>(CommandLineSocket::Working)
    } else if !in_working && in_meta {
        result == Ok::<CommandLineSocket, CommandLineError>(CommandLineSocket::Meta)
    } else if in_working && in_meta {
        result matches Err(CommandLineError::Route { reason }) && reason@
            == "request head appears in both working and meta contracts: "@ + head
    } else {
        result matches Err(CommandLineError::Route { reason }) && reason@ == "unknown request head: "@ + head
    }
}

/// The record heads of the working and the meta contract.
#[derive(Debug, Clone, Copy, PartialEq, Eq)]
pub struct CommandLineRouteTable<'head> {
    working_heads: &'head [&'head str],
    meta_heads: &'head [&'head str],
}

impl<'head> CommandLineRouteTable<'head> {
    /// The heads of the working contract.
    pub closed spec fn spec_working(self) -> Seq<&'head str> {
        self.working_heads@
    }

    /// The heads of the meta contract.
    pub closed spec fn spec_meta(self) -> Seq<&'head str> {
        self.meta_heads@
    }

    pub fn new(working_heads: &'head [&'head str], meta_heads: &'head [&'head str]) -> (table: Self)
        ensures
            table.spec_working() == working_heads@,
            table.spec_meta() == meta_heads@,
    {
        CommandLineRouteTable { working_heads, meta_heads }
    }

    /// Routes a head to the contract that alone declares it.
    pub fn route_head(&self, head: &str) -> (result: Result<CommandLineSocket, CommandLineRouteError>)
        ensures
            route_outcome(self.spec_working(), self.spec_meta(), head@, result),
    {
        let in_working = heads_contain(self.working_heads, head);
        let in_meta = heads_contain(self.meta_heads, head);
        if in_working && !in_meta {
            Ok(CommandLineSocket::Working)
        } else if !in_working && in_meta {
            Ok(CommandLineSocket::Meta)
        } else if in_working && in_meta {
            Err(CommandLineRouteError::AmbiguousRequestHead { head: head.to_owned() })
        } else {
            Err(CommandLineRouteError::UnknownRequestHead { head: head.to_owned() })
        }
    }

    pub fn working_heads(&self) -> (heads: &'head [&'head str])
        ensures
            heads@ == self.spec_working(),
    {
        self.working_heads
    }

    pub fn meta_heads(&self) -> (heads: &'head [&'head str])
        ensures
            heads@ == self.spec_meta(),
    {
        self.meta_heads
    }
}

/// The route table of a working and a meta operation enum.
pub struct CommandLineDispatch<Working, Meta> {
    table: CommandLineRouteTable<'static>,
    marker: PhantomData<(Working, Meta)>,
}

impl<Working, Meta> CommandLineDispatch<Working, Meta> where
    Working: SignalOperationHeads,
    Meta: SignalOperationHeads,
 {
    /// The table inside.
    pub closed spec fn spec_table(self) -> CommandLineRouteTable<'static> {
        self.table
    }

    /// The table of the working and meta operation heads.
    pub fn new() -> (dispatch: Self)
        ensures
            dispatch.spec_table().spec_working() == Working::HEADS@,
            dispatch.spec_table().spec_meta() == Meta::HEADS@,
    {
        CommandLineDispatch {
            table: CommandLineRouteTable::new(Working::HEADS, Meta::HEADS),
            marker: PhantomData,
        }
    }

    /// Routes a head as the table does.
    pub fn route_head(&self, head: &str) -> (result: Result<CommandLineSocket, CommandLineRouteError>)
        ensures
            route_outcome(self.spec_table().spec_working(), self.spec_table().spec_meta(), head@, result),
    {
        self.table.route_head(head)
    }

    pub fn table(&self) -> (table: CommandLineRouteTable<'static>)
        ensures
            table == self.spec_table(),
    {
        self.table
    }
}

impl<Working, Meta> Default for CommandLineDispatch<Working, Meta> where
    Working: SignalOperationHeads,
    Meta: SignalOperationHeads,
 {
    fn default() -> (dispatch: Self) {
        Self::new()
    }
}

// ---------------------------------------------------------------------
// Sockets

/// The working and meta socket paths and the variables they come from.
#[derive(Debug, Clone, PartialEq, Eq)]
pub struct CommandLineSockets {
    working_socket: Option<String>,
    meta_socket: Option<String>,
    working_variable: String,
    meta_variable: String,
}

impl CommandLineSockets {
    pub closed spec fn spec_working_socket(self) -> Option<Seq<char>> {
        match self.working_socket {
            Some(path) => Some(path@),
            None => None,
        }
    }

    pub closed spec fn spec_meta_socket(self) -> Option<Seq<char>> {
        match self.meta_socket {
            Some(path) => Some(path@),
            None => None,
        }
    }

    pub closed spec fn spec_working_variable(self) -> Seq<char> {
        self.working_variable@
    }

    pub closed spec fn spec_meta_variable(self) -> Seq<char> {
        self.meta_variable@
    }

    pub fn new(
        working_socket: Option<String>,
        meta_socket: Option<String>,
        working_variable: String,
        meta_variable: String,
    ) -> (sockets: Self)
        ensures
            sockets.spec_working_socket() == match working_socket {
                Some(path) => Some(path@),
                None => None::<Seq<char>>,
            },
            sockets.spec_meta_socket() == match meta_socket {
                Some(path) => Some(path@),
                None => None::<Seq<char>>,
            },
            sockets.spec_working_variable() == working_variable@,
            sockets.spec_meta_variable() == meta_variable@,
    {
        CommandLineSockets { working_socket, meta_socket, working_variable, meta_variable }
    }

    /// Sockets with only a working socket, under the generic variable
    /// names.
    pub fn working_only(socket: String) -> (sockets: Self)
        ensures
            sockets.spec_working_socket() == Some(socket@),
            sockets.spec_meta_socket() is None,
            sockets.spec_working_variable() == "SIGNAL_WORKING_SOCKET"@,
            sockets.spec_meta_variable() == "SIGNAL_META_SOCKET"@,
    {
        Self::new(
            Some(socket),
            None,
            String::from_str("SIGNAL_WORKING_SOCKET"),
            String::from_str("SIGNAL_META_SOCKET"),
        )
    }

    /// The working socket path, refused when its variable was not set.
    pub fn working_socket(&self) -> (result: Result<&str, CommandLineError>)
        ensures
            match self.spec_working_socket() {
                Some(path) => result matches Ok(found) && found@ == path,
                None => result matches Err(CommandLineError::MissingSocket { variable }) && variable@
                    == self.spec_working_variable(),
            },
    {
        match &self.working_socket {
            Some(path) => Ok(path.as_str()),
            None => Err(CommandLineError::MissingSocket { variable: self.working_variable.clone() }),
        }
    }

    /// The meta socket path, refused when its variable was not set.
    pub fn meta_socket(&self) -> (result: Result<&str, CommandLineError>)
        ensures
            match self.spec_meta_socket() {
                Some(path) => result matches Ok(found) && found@ == path,
                None => result matches Err(CommandLineError::MissingSocket { variable }) && variable@
                    == self.spec_meta_variable(),
            },
    {
        match &self.meta_socket {
            Some(path) => Ok(path.as_str()),
            None => Err(CommandLineError::MissingSocket { variable: self.meta_variable.clone() }),
        }
    }

    pub fn working_variable(&self) -> (variable: &str)
        ensures
            variable@ == self.spec_working_variable(),
    {
        self.working_variable.as_str()
    }

    pub fn meta_variable(&self) -> (variable: &str)
        ensures
            variable@ == self.spec_meta_variable(),
    {
        self.meta_variable.as_str()
    }
}

// ---------------------------------------------------------------------
// Socket variables of a binary

/// A binary name without a leading `persona_` or `persona-`.
pub open spec fn without_persona_prefix(name: Seq<char>) -> Seq<char> {
    if has_prefix(name, "persona_"@) {
        name.subrange("persona_"@.len() as int, name.len() as int)
    } else if has_prefix(name, "persona-"@) {
        name.subrange("persona-"@.len() as int, name.len() as int)
    } else {
        name
    }
}

/// The upper-case form of a name, and whether it ended on a separator:
/// each ASCII letter or digit in upper case, each run of other characters
/// as one underscore, no underscore at the start.
pub open spec fn shout(name: Seq<char>) -> (Seq<char>, bool)
    decreases name.len(),
{
    if name.len() == 0 {
        (Seq::empty(), true)
    } else {
        let (text, separated) = shout(name.drop_last());
        let character = name.last();
        if is_ascii_alphanumeric(character) {
            (text.push(ascii_uppercase(character)), false)
        } else if !separated {
            (text.push('_'), true)
        } else {
            (text, true)
        }
    }
}

/// A text with its trailing underscores removed.
pub open spec fn trim_trailing_underscores(text: Seq<char>) -> Seq<char>
    decreases text.len(),
{
    if text.len() > 0 && text.last() == '_' {
        trim_trailing_underscores(text.drop_last())
    } else {
        text
    }
}

/// The environment-variable stem of a binary: `PERSONA_` and the shouted
/// binary name without its persona prefix, trailing underscores trimmed.
pub open spec fn environment_stem(binary_name: Seq<char>) -> Seq<char> {
    trim_trailing_underscores("PERSONA_"@ + shout(without_persona_prefix(binary_name)).0)
}

/// The shouted form of a name made of ASCII letters and digits is the
/// name in upper case, character for character.
proof fn lemma_shout_of_letters_and_digits(name: Seq<char>)
    requires
        forall|index: int| 0 <= index < name.len() ==> is_ascii_alphanumeric(#[trigger] name[index]),
    ensures
        shout(name).0.len() == name.len(),
        forall|index: int| 0 <= index < name.len() ==> #[trigger] shout(name).0[index] == ascii_uppercase(name[index]),
        shout(name).1 == (name.len() == 0),
    decreases name.len(),
{
    if name.len() > 0 {
        let shorter = name.drop_last();
        assert forall|index: int| 0 <= index < shorter.len() implies is_ascii_alphanumeric(#[trigger] shorter[index]) by {
            assert(shorter[index] == name[index]);
        }
        lemma_shout_of_letters_and_digits(shorter);
        assert(is_ascii_alphanumeric(name[name.len() - 1]));
        assert forall|index: int| 0 <= index < name.len() implies #[trigger] shout(name).0[index] == ascii_uppercase(name[index]) by {
            if index < shorter.len() {
                assert(shorter[index] == name[index]);
            }
        }
    }
}

/// The stem of a binary whose name is made of ASCII letters and digits
/// only is `PERSONA_` followed by every character of the name in upper
/// case, in order: no letter or digit is dropped, none is added.
pub proof fn lemma_stem_of_letters_and_digits(name: Seq<char>)
    requires
        name.len() > 0,
        forall|index: int|
            0 <= index < name.len() ==> ('0' <= #[trigger] name[index] && name[index] <= '9') || ('A'
                <= name[index] && name[index] <= 'Z') || ('a' <= name[index] && name[index] <= 'z'),
    ensures
        environment_stem(name).len() == 8 + name.len(),
        environment_stem(name).subrange(0, 8) == "PERSONA_"@,
        forall|index: int|
            0 <= index < name.len() ==> #[trigger] environment_stem(name)[8 + index] == (if 'a'
                <= name[index] && name[index] <= 'z' {
                (((name[index] as u32) - 32) as u8) as char
            } else {
                name[index]
            }),
{
    reveal_strlit("persona_");
    reveal_strlit("persona-");
    reveal_strlit("PERSONA_");
    if has_prefix(name, "persona_"@) {
        assert(name.subrange(0, 8)[7] == name[7]);
        assert(false);
    }
    if has_prefix(name, "persona-"@) {
        assert(name.subrange(0, 8)[7] == name[7]);
        assert(false);
    }
    assert(without_persona_prefix(name) == name);
    assert forall|index: int| 0 <= index < name.len() implies is_ascii_alphanumeric(#[trigger] name[index]) by {
        assert(('0' <= name[index] && name[index] <= '9') || ('A' <= name[index] && name[index] <= 'Z') || (
        'a' <= name[index] && name[index] <= 'z'));
    }
    lemma_shout_of_letters_and_digits(name);
    let shouted = shout(name).0;
    let whole = "PERSONA_"@ + shouted;
    let last = name[name.len() - 1];
    assert(whole.last() == shouted[name.len() - 1]);
    assert(shouted[name.len() - 1] == ascii_uppercase(last));
    if 'a' <= last && last <= 'z' {
        assert((((last as u32) - 32) as u8) as char != '_');
    }
    assert(whole.last() != '_');
    assert(environment_stem(name) == whole);
    assert(whole.subrange(0, 8) =~= "PERSONA_"@);
    assert forall|index: int| 0 <= index < name.len() implies #[trigger] whole[8 + index] == ascii_uppercase(name[index]) by {
        assert(whole[8 + index] == shouted[index]);
    }
}

/// The environment-variable stem of a binary name.
pub fn environment_stem_of(binary_name: &str) -> (stem: String)
    ensures
        stem@ == environment_stem(binary_name@),
{
    let name = if starts_with(binary_name, "persona_") {
        proof {
            reveal_strlit("persona_");
        }
        binary_name.substring_char(8, binary_name.unicode_len())
    } else if starts_with(binary_name, "persona-") {
        proof {
            reveal_strlit("persona-");
        }
        binary_name.substring_char(8, binary_name.unicode_len())
    } else {
        binary_name
    };
    assert(name@ == without_persona_prefix(binary_name@));
    let mut stem = String::from_str("PERSONA_");
    let ghost start = stem@;
    let mut separated = true;
    let length = name.unicode_len();
    let mut index: usize = 0;
    while index < length
        invariant
            length == name@.len(),
            index <= length,
            stem@ == start + shout(name@.subrange(0, index as int)).0,
            separated == shout(name@.subrange(0, index as int)).1,
        decreases length - index,
    {
        let character = name.get_char(index);
        let ghost before = name@.subrange(0, index as int);
        let ghost after = name@.subrange(0, index as int + 1);
        assert(after.drop_last() =~= before);
        assert(after.last() == character);
        let alphanumeric = ('0' <= character && character <= '9') || ('A' <= character && character
            <= 'Z') || ('a' <= character && character <= 'z');
        if alphanumeric {
            let upper = if 'a' <= character && character <= 'z' {
                (((character as u32) - 32) as u8) as char
            } else {
                character
            };
            push_char(&mut stem, upper);
            separated = false;
            assert(stem@ =~= start + shout(after).0);
        } else if !separated {
            push_char(&mut stem, '_');
            separated = true;
            assert(stem@ =~= start + shout(after).0);
        }
        index += 1;
    }
    assert(name@.subrange(0, length as int) =~= name@);
    let ghost whole = stem@;
    let text = stem.as_str();
    let mut end = text.unicode_len();
    assert(whole.subrange(0, end as int) =~= whole);
    while end > 0 && text.get_char(end - 1) == '_'
        invariant
            end <= whole.len(),
            text@ == whole,
            trim_trailing_underscores(whole) == trim_trailing_underscores(whole.subrange(0, end as int)),
        decreases end,
    {
        assert(whole.subrange(0, end as int).drop_last() =~= whole.subrange(0, end as int - 1));
        end -= 1;
    }
    let trimmed = text.substring_char(0, end);
    trimmed.to_owned()
}

/// The variables that name a binary's working and meta sockets: the
/// environment stem followed by `_SOCKET` and by `_META_SOCKET`.
pub fn socket_variables(binary_name: &str) -> (variables: (String, String))
    ensures
        variables.0@ == environment_stem(binary_name@) + "_SOCKET"@,
        variables.1@ == environment_stem(binary_name@) + "_META_SOCKET"@,
{
    let stem = environment_stem_of(binary_name);
    let working = stem.clone().concat("_SOCKET");
    let meta = stem.concat("_META_SOCKET");
    (working, meta)
}

// ---------------------------------------------------------------------
// Request text

/// The first character of a text that is not white space, if any.
pub open spec fn first_visible(text: Seq<char>) -> Option<char>
    decreases text.len(),
{
    if text.len() == 0 {
        None
    } else if is_unicode_whitespace(text[0]) {
        first_visible(text.drop_first())
    } else {
        Some(text[0])
    }
}

/// A request argument is inline request text when its first character
/// that is not white space opens a record or a sequence.
pub open spec fn is_inline_request(text: Seq<char>) -> bool {
    first_visible(text) == Some('(') || first_visible(text) == Some('[')
}

/// An argument is inline request text exactly when its first character
/// that is not white space opens a record, `(`, or a sequence, `[`; with
/// any other such character it names a request file.
pub proof fn lemma_inline_request_by_first_visible_character(text: Seq<char>, index: int)
    requires
        0 <= index < text.len(),
        forall|earlier: int| 0 <= earlier < index ==> is_unicode_whitespace(#[trigger] text[earlier]),
        !is_unicode_whitespace(text[index]),
    ensures
        is_inline_request(text) == (text[index] == '(' || text[index] == '['),
    decreases index,
{
    lemma_first_visible_is_first_non_space(text, index);
}

/// An argument made of white space only names a request file.
pub proof fn lemma_blank_argument_is_not_inline(text: Seq<char>)
    requires
        forall|index: int| 0 <= index < text.len() ==> is_unicode_whitespace(#[trigger] text[index]),
    ensures
        !is_inline_request(text),
    decreases text.len(),
{
    if text.len() > 0 {
        assert forall|index: int| 0 <= index < text.drop_first().len() implies is_unicode_whitespace(
            #[trigger] text.drop_first()[index],
        ) by {
            assert(text.drop_first()[index] == text[index + 1]);
        }
        lemma_blank_argument_is_not_inline(text.drop_first());
    }
}

proof fn lemma_first_visible_is_first_non_space(text: Seq<char>, index: int)
    requires
        0 <= index < text.len(),
        forall|earlier: int| 0 <= earlier < index ==> is_unicode_whitespace(#[trigger] text[earlier]),
        !is_unicode_whitespace(text[index]),
    ensures
        first_visible(text) == Some(text[index]),
    decreases index,
{
    if index > 0 {
        assert(is_unicode_whitespace(text[0]));
        let rest = text.drop_first();
        assert forall|earlier: int| 0 <= earlier < index - 1 implies is_unicode_whitespace(#[trigger] rest[earlier]) by {
            assert(rest[earlier] == text[earlier + 1]);
        }
        lemma_first_visible_is_first_non_space(rest, index - 1);
    }
}

/// The request argument of a thin client: inline request text, or the
/// path of a file that holds it.
#[derive(Debug, Clone, PartialEq, Eq)]
pub struct RequestInput {
    argument: SingleArgument,
}

impl RequestInput {
    pub closed spec fn spec_argument(self) -> SingleArgument {
        self.argument
    }

    pub fn new(argument: SingleArgument) -> (input: Self)
        ensures
            input.spec_argument() == argument,
    {
        RequestInput { argument }
    }

    /// The request text when the argument is inline request text; nothing
    /// when the argument names the file that holds it.
    pub fn inline_text(&self) -> (text: Option<String>)
        ensures
            is_inline_request(self.spec_argument()@) ==> (text matches Some(inline) && inline@
                == self.spec_argument()@),
            !is_inline_request(self.spec_argument()@) ==> text is None,
    {
        let value = self.argument.as_str();
        let length = value.unicode_len();
        let mut index: usize = 0;
        assert(value@.subrange(0, length as int) =~= value@);
        while index < length && is_whitespace(value.get_char(index))
            invariant
                length == value@.len(),
                index <= length,
                first_visible(value@) == first_visible(value@.subrange(index as int, length as int)),
            decreases length - index,
        {
            assert(value@.subrange(index as int, length as int).drop_first() =~= value@.subrange(
                index as int + 1,
                length as int,
            ));
            index += 1;
        }
        if index < length {
            let first = value.get_char(index);
            if first == '(' || first == '[' {
                return Some(value.to_owned());
            }
        }
        None
    }

    /// The argument: the path of the request file when it is not inline.
    pub fn argument(&self) -> (argument: &SingleArgument)
        ensures
            *argument == self.spec_argument(),
    {
        &self.argument
    }
}

/// The record head of a request, by which it is routed.
#[derive(Debug, Clone, PartialEq, Eq)]
pub struct RequestHead {
    head: String,
}

impl View for RequestHead {
    type V = Seq<char>;

    closed spec fn view(&self) -> Seq<char> {
        self.head@
    }
}

impl RequestHead {
    /// The head read off a request's text.
    pub fn from_head(head: String) -> (request_head: Self)
        ensures
            request_head@ == head@,
    {
        RequestHead { head }
    }

    pub fn as_str(&self) -> (head: &str)
        ensures
            head@ == self@,
    {
        self.head.as_str()
    }

    /// The socket the request goes to: that of the contract that alone
    /// declares the head.
    pub fn route<Working, Meta>(&self) -> (result: Result<CommandLineSocket, CommandLineError>)
        where Working: SignalOperationHeads, Meta: SignalOperationHeads,
        ensures
            head_route_outcome(Working::HEADS@, Meta::HEADS@, self@, result),
    {
        let dispatch = CommandLineDispatch::<Working, Meta>::new();
        let routed = dispatch.route_head(self.as_str());
        match routed {
            Ok(socket) => Ok(socket),
            Err(error) => Err(CommandLineError::route(error)),
        }
    }
}

/// The text of a request, to be decoded into requests of `Operation`.
#[derive(Debug, PartialEq, Eq)]
pub struct RequestText<Operation> {
    text: String,
    marker: PhantomData<Operation>,
}

impl<Operation> Clone for RequestText<Operation> {
    fn clone(&self) -> (copy: Self)
        ensures
            copy.spec_text() == self.spec_text(),
    {
        RequestText { text: self.text.clone(), marker: PhantomData }
    }
}

impl<Operation> RequestText<Operation> {
    pub closed spec fn spec_text(self) -> Seq<char> {
        self.text@
    }

    pub fn new(text: String) -> (request_text: Self)
        ensures
            request_text.spec_text() == text@,
    {
        RequestText { text, marker: PhantomData }
    }

    pub fn as_str(&self) -> (text: &str)
        ensures
            text@ == self.spec_text(),
    {
        self.text.as_str()
    }
}

// ---------------------------------------------------------------------
// Client frames

/// Frame shape usable by the command-line client.
pub trait ClientFrame: Sized {
    type Operation;

    type Reply;

    fn request_frame(exchange: ExchangeIdentifier, request: Request<Self::Operation>) -> Result<Self, CommandLineError>;

    fn reply_from_frame(self, expected_exchange: ExchangeIdentifier) -> Result<Reply<Self::Reply>, CommandLineError>;

    fn encode_client_frame(&self) -> Result<Vec<u8>, CommandLineError>;

    fn decode_client_frame(bytes: &[u8]) -> Result<Self, CommandLineError>;
}

/// The name of a frame body's variant, as a reply-expecting client
/// reports an unexpected frame.
pub open spec fn exchange_body_name<RequestPayload, ReplyPayload>(body: ExchangeFrameBody<RequestPayload, ReplyPayload>) -> Seq<char> {
    match body {
        ExchangeFrameBody::HandshakeRequest(_) => "HandshakeRequest"@,
        ExchangeFrameBody::HandshakeReply(_) => "HandshakeReply"@,
        ExchangeFrameBody::Request { .. } => "Request"@,
        ExchangeFrameBody::Reply { .. } => "Reply"@,
    }
}

/// The name of a streaming frame body's variant.
pub open spec fn streaming_body_name<RequestPayload, ReplyPayload, EventPayload>(body: StreamingFrameBody<RequestPayload, ReplyPayload, EventPayload>) -> Seq<char> {
    match body {
        StreamingFrameBody::HandshakeRequest(_) => "HandshakeRequest"@,
        StreamingFrameBody::HandshakeReply(_) => "HandshakeReply"@,
        StreamingFrameBody::Request { .. } => "Request"@,
        StreamingFrameBody::Reply { .. } => "Reply"@,
        StreamingFrameBody::SubscriptionEvent { .. } => "SubscriptionEvent"@,
    }
}

/// What reading the reply for the exchange `expected` out of `body`
/// gives: the reply of that exchange; a mismatch naming the exchange
/// found; or, for a body that is no reply, an unexpected frame named by
/// its variant.
pub open spec fn exchange_reply_outcome<RequestPayload, ReplyPayload>(
    body: ExchangeFrameBody<RequestPayload, ReplyPayload>,
    expected: ExchangeIdentifier,
    result: Result<Reply<ReplyPayload>, CommandLineError>,
) -> bool {
    match body {
        ExchangeFrameBody::Reply { exchange, reply } => if exchange == expected {
            result == Ok::<Reply<ReplyPayload>, CommandLineError>(reply)
        } else {
            result == Err::<Reply<ReplyPayload>, CommandLineError>(CommandLineError::ReplyExchangeMismatch { expected, found: exchange })
        },
        other => result matches Err(CommandLineError::UnexpectedFrame { expected: wanted, got }) && wanted@ == "reply"@ && got@ == exchange_body_name(other),
    }
}

/// What reading the reply for the exchange `expected` out of a streaming
/// `body` gives, as [`exchange_reply_outcome`] says for exchange bodies.
pub open spec fn streaming_reply_outcome<RequestPayload, ReplyPayload, EventPayload>(
    body: StreamingFrameBody<RequestPayload, ReplyPayload, EventPayload>,
    expected: ExchangeIdentifier,
    result: Result<Reply<ReplyPayload>, CommandLineError>,
) -> bool {
    match body {
        StreamingFrameBody::Reply { exchange, reply } => if exchange == expected {
            result == Ok::<Reply<ReplyPayload>, CommandLineError>(reply)
        } else {
            result == Err::<Reply<ReplyPayload>, CommandLineError>(CommandLineError::ReplyExchangeMismatch { expected, found: exchange })
        },
        other => result matches Err(CommandLineError::UnexpectedFrame { expected: wanted, got }) && wanted@ == "reply"@ && got@ == streaming_body_name(other),
    }
}

/// The reply a frame body carries for the exchange `expected`: refused
/// when it answers another exchange or is not a reply.
pub fn exchange_reply<RequestPayload, ReplyPayload>(
    body: ExchangeFrameBody<RequestPayload, ReplyPayload>,
    expected: ExchangeIdentifier,
) -> (result: Result<Reply<ReplyPayload>, CommandLineError>)
    ensures
        exchange_reply_outcome(body, expected, result),
{
    match body {
        ExchangeFrameBody::Reply { exchange, reply } => {
            if exchange.same_exchange(expected) {
                Ok(reply)
            } else {
                Err(CommandLineError::ReplyExchangeMismatch { expected, found: exchange })
            }
        },
        ExchangeFrameBody::HandshakeRequest(_) => Err(CommandLineError::UnexpectedFrame { expected: "reply", got: String::from_str("HandshakeRequest") }),
        ExchangeFrameBody::HandshakeReply(_) => Err(CommandLineError::UnexpectedFrame { expected: "reply", got: String::from_str("HandshakeReply") }),
        ExchangeFrameBody::Request { .. } => Err(CommandLineError::UnexpectedFrame { expected: "reply", got: String::from_str("Request") }),
    }
}

/// The reply a streaming frame body carries for the exchange `expected`:
/// refused when it answers another exchange or is not a reply.
pub fn streaming_reply<RequestPayload, ReplyPayload, EventPayload>(
    body: StreamingFrameBody<RequestPayload, ReplyPayload, EventPayload>,
    expected: ExchangeIdentifier,
) -> (result: Result<Reply<ReplyPayload>, CommandLineError>)
    ensures
        streaming_reply_outcome(body, expected, result),
{
    match body {
        StreamingFrameBody::Reply { exchange, reply } => {
            if exchange.same_exchange(expected) {
                Ok(reply)
            } else {
                Err(CommandLineError::ReplyExchangeMismatch { expected, found: exchange })
            }
        },
        StreamingFrameBody::HandshakeRequest(_) => Err(CommandLineError::UnexpectedFrame { expected: "reply", got: String::from_str("HandshakeRequest") }),
        StreamingFrameBody::HandshakeReply(_) => Err(CommandLineError::UnexpectedFrame { expected: "reply", got: String::from_str("HandshakeReply") }),
        StreamingFrameBody::Request { .. } => Err(CommandLineError::UnexpectedFrame { expected: "reply", got: String::from_str("Request") }),
        StreamingFrameBody::SubscriptionEvent { .. } => Err(CommandLineError::UnexpectedFrame { expected: "reply", got: String::from_str("SubscriptionEvent") }),
    }
}

/// What building a request frame gives, seen through the frame's header:
/// the header of `binding` at the route of the first payload's
/// projection, or the refusal of that projection.
pub open spec fn request_frame_outcome(
    binding: ContractBinding,
    projection: u64,
    result: Result<u64, CommandLineError>,
) -> bool {
    if crate::binding::log_variant_fits_route(projection) {
        result == Ok::<u64, CommandLineError>(crate::frame::header_value(
            binding@.0,
            binding@.1,
            crate::binding::log_variant_root(projection),
            crate::binding::log_variant_variant(projection),
        ))
    } else {
        result == Err::<u64, CommandLineError>(CommandLineError::InvalidRoute(
            WireRouteError::BitsAboveRoute { value: projection },
        ))
    }
}

impl<Contract, Operation, ReplyPayload> BoundExchangeFrame<Contract, Operation, ReplyPayload> where
    Contract: crate::binding::WireContract,
    Operation: LogVariant,
 {
    /// The request frame of `request` in `exchange`, routed by the request,
    /// refused when its route does not fit a short header.
    pub fn request_frame(exchange: ExchangeIdentifier, request: Request<Operation>) -> (result: Result<Self, CommandLineError>)
        ensures
            request_frame_outcome(
                Contract::spec_binding(),
                request.payloads@[0].spec_log_variant(),
                match result {
                    Ok(frame) => Ok(frame.frame().short_header@),
                    Err(error) => Err(error),
                },
            ),
            result matches Ok(frame) ==> frame.frame().body == (ExchangeFrameBody::<Operation, ReplyPayload>::Request { exchange, request }),
    {
        let route = match request.route() {
            Ok(route) => route,
            Err(error) => return Err(CommandLineError::InvalidRoute(error)),
        };
        Ok(Self::new(route, ExchangeFrameBody::Request { exchange, request }))
    }

    /// The reply this frame carries for `expected_exchange`, as
    /// [`exchange_reply`] reads it from the frame's body.
    pub fn reply_from_frame(self, expected_exchange: ExchangeIdentifier) -> (result: Result<Reply<ReplyPayload>, CommandLineError>)
        ensures
            exchange_reply_outcome(self.frame().body, expected_exchange, result),
    {
        exchange_reply(self.into_body(), expected_exchange)
    }
}

impl<Contract, Operation, ReplyPayload, EventPayload> BoundStreamingFrame<Contract, Operation, ReplyPayload, EventPayload> where
    Contract: crate::binding::WireContract,
    Operation: LogVariant,
 {
    /// The request frame of `request` in `exchange`, routed by the request,
    /// refused when its route does not fit a short header.
    pub fn request_frame(exchange: ExchangeIdentifier, request: Request<Operation>) -> (result: Result<Self, CommandLineError>)
        ensures
            request_frame_outcome(
                Contract::spec_binding(),
                request.payloads@[0].spec_log_variant(),
                match result {
                    Ok(frame) => Ok(frame.frame().short_header@),
                    Err(error) => Err(error),
                },
            ),
            result matches Ok(frame) ==> frame.frame().body == (StreamingFrameBody::<Operation, ReplyPayload, EventPayload>::Request { exchange, request }),
    {
        let route = match request.route() {
            Ok(route) => route,
            Err(error) => return Err(CommandLineError::InvalidRoute(error)),
        };
        Ok(Self::new(route, StreamingFrameBody::Request { exchange, request }))
    }

    /// The reply this frame carries for `expected_exchange`, as
    /// [`streaming_reply`] reads it from the frame's body.
    pub fn reply_from_frame(self, expected_exchange: ExchangeIdentifier) -> (result: Result<Reply<ReplyPayload>, CommandLineError>)
        ensures
            streaming_reply_outcome(self.frame().body, expected_exchange, result),
    {
        streaming_reply(self.into_body(), expected_exchange)
    }
}

// ---------------------------------------------------------------------
// The client shape

/// The name of a per-operation reply's variant, as the client reports an
/// operation reply it did not expect.
pub open spec fn sub_reply_name<ReplyPayload>(reply: SubReply<ReplyPayload>) -> Seq<char> {
    match reply {
        SubReply::Completed(_) => "Completed"@,
        SubReply::Invalidated => "Invalidated"@,
        SubReply::Failed { .. } => "Failed"@,
        SubReply::Skipped => "Skipped"@,
    }
}

/// The operation reply at an index is not a completed one.
pub open spec fn not_completed<ReplyPayload>(replies: Seq<SubReply<ReplyPayload>>) -> spec_fn(int) -> bool {
    |index: int| !(replies[index] is Completed)
}

/// The payloads of an accepted reply whose every operation completed, in
/// order; refused at the first operation that did not complete, and for a
/// rejected reply.
pub open spec fn reply_payloads_outcome<ReplyPayload>(
    reply: Reply<ReplyPayload>,
    result: Result<NonEmpty<ReplyPayload>, CommandLineError>,
) -> bool {
    match reply {
        Reply::Rejected { reason } => result matches Err(CommandLineError::RequestRejected { reason: text }) && text@ == "receiver-internal pre-execution or infrastructure failure"@,
        Reply::Accepted { per_operation, .. } => match first_index(per_operation@.len(), not_completed(per_operation@)) {
            Some(index) => result matches Err(CommandLineError::UnexpectedFrame { expected, got }) && expected@ == "accepted operation reply"@ && got@ == sub_reply_name(per_operation@[index]),
            None => result matches Ok(payloads) && payloads@.len() == per_operation@.len() && forall|index: int| 0 <= index < payloads@.len() ==> per_operation@[index] == SubReply::Completed(#[trigger] payloads@[index]),
        },
    }
}

/// The thin client of a working and a meta contract.
pub struct ClientShape<Working, Meta> {
    sockets: CommandLineSockets,
    maximum_frame_bytes: usize,
    marker: PhantomData<(Working, Meta)>,
}

/// The largest reply frame a client reads by default: eight mebibytes.
pub const DEFAULT_MAXIMUM_FRAME_BYTES: usize = 8388608;

impl<Working, Meta> ClientShape<Working, Meta> {
    pub closed spec fn spec_sockets(self) -> CommandLineSockets {
        self.sockets
    }

    pub closed spec fn spec_maximum_frame_bytes(self) -> usize {
        self.maximum_frame_bytes
    }

    pub fn new(sockets: CommandLineSockets) -> (shape: Self)
        ensures
            shape.spec_sockets() == sockets,
            shape.spec_maximum_frame_bytes() == DEFAULT_MAXIMUM_FRAME_BYTES,
    {
        ClientShape { sockets, maximum_frame_bytes: DEFAULT_MAXIMUM_FRAME_BYTES, marker: PhantomData }
    }

    /// The same client with another frame-size limit.
    pub fn with_maximum_frame_bytes(self, maximum_frame_bytes: usize) -> (shape: Self)
        ensures
            shape.spec_sockets() == self.spec_sockets(),
            shape.spec_maximum_frame_bytes() == maximum_frame_bytes,
    {
        ClientShape { sockets: self.sockets, maximum_frame_bytes, marker: PhantomData }
    }

    pub fn sockets(&self) -> (sockets: &CommandLineSockets)
        ensures
            *sockets == self.spec_sockets(),
    {
        &self.sockets
    }

    pub fn maximum_frame_bytes(&self) -> (limit: usize)
        ensures
            limit == self.spec_maximum_frame_bytes(),
    {
        self.maximum_frame_bytes
    }

    /// The socket path of the contract a request routes to.
    pub fn socket(&self, socket: CommandLineSocket) -> (result: Result<&str, CommandLineError>)
        ensures
            socket == CommandLineSocket::Working ==> match self.spec_sockets().spec_working_socket() {
                Some(path) => result matches Ok(found) && found@ == path,
                None => result matches Err(CommandLineError::MissingSocket { variable }) && variable@ == self.spec_sockets().spec_working_variable(),
            },
            socket == CommandLineSocket::Meta ==> match self.spec_sockets().spec_meta_socket() {
                Some(path) => result matches Ok(found) && found@ == path,
                None => result matches Err(CommandLineError::MissingSocket { variable }) && variable@ == self.spec_sockets().spec_meta_variable(),
            },
    {
        match socket {
            CommandLineSocket::Working => self.sockets.working_socket(),
            CommandLineSocket::Meta => self.sockets.meta_socket(),
        }
    }

    /// The length of the reply frame announced by its four-byte prefix,
    /// refused above the client's limit.
    pub fn frame_length(&self, prefix: [u8; 4]) -> (result: Result<usize, CommandLineError>)
        ensures
            from_be_bytes(prefix@) > self.spec_maximum_frame_bytes() ==> result == Err::<usize, CommandLineError>(CommandLineError::FrameTooLarge { found: from_be_bytes(prefix@) as usize, limit: self.spec_maximum_frame_bytes() }),
            from_be_bytes(prefix@) <= self.spec_maximum_frame_bytes() ==> result == Ok::<usize, CommandLineError>(from_be_bytes(prefix@) as usize),
    {
        let length = (((prefix[0] as u32) << 24u32) | ((prefix[1] as u32) << 16u32) | ((prefix[2] as u32) << 8u32) | (prefix[3] as u32)) as usize;
        if length > self.maximum_frame_bytes {
            return Err(CommandLineError::FrameTooLarge { found: length, limit: self.maximum_frame_bytes });
        }
        Ok(length)
    }

    /// The exchange of a one-shot client: each invocation opens a fresh
    /// connection and sends one request, so the first sequence of epoch
    /// zero on the connector lane.
    pub fn exchange() -> (exchange: ExchangeIdentifier)
        ensures
            exchange@ == (0u64, ExchangeLane::Connector, 0u64),
    {
        ExchangeIdentifier::new(SessionEpoch::new(0), ExchangeLane::Connector, LaneSequence::first())
    }

    /// The payloads of an accepted reply whose every operation completed.
    pub fn reply_payloads<ReplyPayload>(reply: Reply<ReplyPayload>) -> (result: Result<NonEmpty<ReplyPayload>, CommandLineError>)
        ensures
            reply_payloads_outcome(reply, result),
    {
        match reply {
            Reply::Rejected { reason } => Err(CommandLineError::RequestRejected { reason: reason.message() }),
            Reply::Accepted { per_operation, .. } => {
                let ghost replies = per_operation@;
                let ghost property = not_completed(replies);
                proof { NonEmpty::lemma_not_empty(per_operation); }
                let mut remaining = per_operation.into_vec();
                let mut payloads: Vec<ReplyPayload> = Vec::new();
                let mut index: usize = 0;
                let count = remaining.len();
                while index < count
                    invariant
                        reply matches Reply::Accepted { per_operation: operations, .. } && operations@ == replies,
                        count == replies.len(),
                        index <= count,
                        property == not_completed(replies),
                        remaining@ == replies.subrange(index as int, count as int),
                        payloads@.len() == index,
                        no_index(index as nat, property),
                        forall|position: int| 0 <= position < index ==> replies[position] == SubReply::Completed(#[trigger] payloads@[position]),
                    decreases count - index,
                {
                    let ghost before = remaining@;
                    let sub_reply = remaining.remove(0);
                    assert(remaining@ =~= replies.subrange(index as int + 1, count as int));
                    assert(sub_reply == replies[index as int]);
                    match sub_reply {
                        SubReply::Completed(payload) => {
                            payloads.push(payload);
                        },
                        SubReply::Invalidated => {
                            proof {
                                assert(property(index as int));
                                lemma_found_first(count as nat, property, index as int);
                            }
                            return Err(CommandLineError::UnexpectedFrame { expected: "accepted operation reply", got: String::from_str("Invalidated") });
                        },
                        SubReply::Failed { .. } => {
                            proof {
                                assert(property(index as int));
                                lemma_found_first(count as nat, property, index as int);
                            }
                            return Err(CommandLineError::UnexpectedFrame { expected: "accepted operation reply", got: String::from_str("Failed") });
                        },
                        SubReply::Skipped => {
                            proof {
                                assert(property(index as int));
                                lemma_found_first(count as nat, property, index as int);
                            }
                            return Err(CommandLineError::UnexpectedFrame { expected: "accepted operation reply", got: String::from_str("Skipped") });
                        },
                    }
                    index += 1;
                }
                proof { lemma_found_none(count as nat, property); }
                assert(payloads@.len() > 0);
                match NonEmpty::try_from_vec(payloads) {
                    Ok(payloads) => Ok(payloads),
                    Err(_) => Err(CommandLineError::SignalFrame { reason: String::from_str("cannot construct a NonEmpty from an empty sequence") }),
                }
            },
        }
    }
}

} // verus!
