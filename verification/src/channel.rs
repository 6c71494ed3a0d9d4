//! The declaration of one signal channel and the semantic checks it must
//! pass before code is generated from it.
//!
//! Names and types are held as the text of their tokens. A failed check
//! names the offending declaration by its position, so a caller can point
//! at it and word the diagnostic.

use vstd::prelude::*;

use crate::search::{
    first_index, is_first_index, lemma_first_index, lemma_first_index_extends, lemma_found_first,
    lemma_found_none, no_index,
};
use crate::text::{push_char, str_equal};

verus! {

// ---------------------------------------------------------------------
// Declaration model

/// One channel declaration.
#[derive(Debug)]
pub struct ChannelSpec {
    pub name: String,
    /// The wire contract whose binding the channel's frames carry.
    pub contract: String,
    pub request: RequestBlockSpec,
    pub reply: ReplyBlockSpec,
    pub event: Option<EventBlockSpec>,
    pub streams: Vec<StreamBlockSpec>,
    pub observable: Option<ObservableBlockSpec>,
}

#[derive(Debug)]
pub struct RequestBlockSpec {
    pub name: String,
    pub variants: Vec<RequestVariantSpec>,
}

#[derive(Debug)]
pub struct ReplyBlockSpec {
    pub name: String,
    pub variants: Vec<ReplyVariantSpec>,
}

#[derive(Debug)]
pub struct EventBlockSpec {
    pub name: String,
    pub variants: Vec<EventVariantSpec>,
}

#[derive(Debug)]
pub struct StreamBlockSpec {
    pub name: String,
    /// The token type, as text.
    pub token: String,
    pub opened: String,
    pub events: Vec<String>,
    pub close: String,
}

#[derive(Debug)]
pub struct RequestVariantSpec {
    pub variant_name: String,
    /// The payload type, as text.
    pub payload_type: String,
    /// The stream this operation opens, if any.
    pub opens: Option<String>,
}

#[derive(Debug)]
pub struct ReplyVariantSpec {
    pub variant_name: String,
    /// The payload type, as text; a unit reply carries none.
    pub payload_type: Option<String>,
}

#[derive(Debug)]
pub struct EventVariantSpec {
    pub variant_name: String,
    /// The payload type, as text.
    pub payload_type: String,
    /// The stream this event belongs to.
    pub belongs: Option<String>,
}

/// Opt-in observer-subscription declaration.
#[derive(Debug)]
pub struct ObservableBlockSpec {
    pub filter: FilterDecl,
    /// The event record published when an operation is received.
    pub operation_event: String,
    /// The event record published when an effect is emitted.
    pub effect_event: String,
}

/// How an observable block declares its filter type.
#[derive(Debug)]
pub enum FilterDecl {
    /// The generated closed-enum filter.
    Default,
    /// A filter type the contract crate names and implements.
    Named(String),
}

/// A field of a schema-declared record.
#[derive(Debug)]
pub struct SchemaField {
    pub name: Option<String>,
    pub schema_type: SchemaType,
}

/// A type expression of a schema declaration.
#[derive(Debug)]
pub enum SchemaType {
    Named(String),
    Vec(Box<SchemaType>),
    Option(Box<SchemaType>),
}

impl SchemaField {
    /// A field whose name is derived from its type.
    pub fn inferred(schema_type: SchemaType) -> (field: Self)
        ensures
            field.name is None,
            field.schema_type == schema_type,
    {
        SchemaField { name: None, schema_type }
    }

    /// A field with an explicit name.
    pub fn named(name: String, schema_type: SchemaType) -> (field: Self)
        ensures
            field.name == Some(name),
            field.schema_type == schema_type,
    {
        SchemaField { name: Some(name), schema_type }
    }
}

impl ObservableBlockSpec {
    /// The two event records the block declares: the operation event, then
    /// the effect event.
    pub fn event_records(&self) -> (records: [&String; 2])
        ensures
            *records[0] == self.operation_event,
            *records[1] == self.effect_event,
    {
        [&self.operation_event, &self.effect_event]
    }
}

impl ChannelSpec {
    /// A channel streams when it declares events, streams or an observable
    /// block.
    pub fn is_streaming(&self) -> (streaming: bool)
        ensures
            streaming == (self.event is Some || self.streams@.len() > 0 || self.observable is Some),
    {
        self.event.is_some() || self.streams.len() > 0 || self.observable.is_some()
    }
}

// ---------------------------------------------------------------------
// Record heads

/// A type's text with its spaces removed.
pub open spec fn without_spaces(text: Seq<char>) -> Seq<char>
    decreases text.len(),
{
    if text.len() == 0 {
        text
    } else if text.last() == ' ' {
        without_spaces(text.drop_last())
    } else {
        without_spaces(text.drop_last()).push(text.last())
    }
}

/// A path separator `::` starts at `index`.
pub open spec fn separator_at(text: Seq<char>, index: int) -> bool {
    0 <= index && index + 1 < text.len() && text[index] == ':' && text[index + 1] == ':'
}

/// The last segment of a path: what follows its last `::`, or the whole
/// text when it has none.
pub open spec fn last_segment(text: Seq<char>) -> Seq<char> {
    if exists|index: int| separator_at(text, index) {
        let last = choose|index: int|
            separator_at(text, index) && forall|later: int| index < later ==> !separator_at(text, later);
        text.subrange(last + 2, text.len() as int)
    } else {
        text
    }
}

/// The record head a payload type projects to in the text form: the
/// last path segment of the type's text without spaces. Two payload
/// types with the same head cannot share one payload enum.
pub open spec fn record_head(type_text: Seq<char>) -> Seq<char> {
    last_segment(without_spaces(type_text))
}

/// The record head a payload type projects to.
pub fn projected_record_head(payload: &String) -> (head: String)
    ensures
        head@ == record_head(payload@),
{
    let text = payload.as_str();
    let length = text.unicode_len();
    let mut compact = String::new();
    let mut index: usize = 0;
    while index < length
        invariant
            length == text@.len(),
            index <= length,
            compact@ == without_spaces(text@.subrange(0, index as int)),
        decreases length - index,
    {
        let character = text.get_char(index);
        let ghost before = text@.subrange(0, index as int);
        let ghost after = text@.subrange(0, index as int + 1);
        assert(after.drop_last() =~= before);
        assert(after.last() == character);
        if character != ' ' {
            push_char(&mut compact, character);
        }
        index += 1;
    }
    assert(text@.subrange(0, length as int) =~= text@);
    let ghost compact_view = compact@;
    assert(compact_view == without_spaces(payload@));
    let compact_text = compact.as_str();
    let compact_length = compact_text.unicode_len();
    // Search for the last separator from the end.
    let mut position: usize = compact_length;
    while position >= 2
        invariant
            compact_length == compact_view.len(),
            compact_text@ == compact_view,
            compact_view == without_spaces(payload@),
            position <= compact_length,
            forall|later: int| position as int - 1 <= later ==> !separator_at(compact_view, later),
        decreases position,
    {
        if compact_text.get_char(position - 2) == ':' && compact_text.get_char(position - 1) == ':' {
            let start = position - 2;
            proof {
                assert(separator_at(compact_view, start as int));
                let last = choose|index: int|
                    separator_at(compact_view, index) && forall|later: int|
                        index < later ==> !separator_at(compact_view, later);
                assert(separator_at(compact_view, last));
                if last < start {
                    assert(!separator_at(compact_view, start as int));
                }
                if last > start {
                    assert(!separator_at(compact_view, last));
                }
                assert(last == start);
            }
            let segment = compact_text.substring_char(position, compact_length);
            let head = segment.to_owned();
            assert(compact_view == without_spaces(payload@));
            assert(head@ == compact_view.subrange(start as int + 2, compact_view.len() as int));
            assert(head@ == last_segment(compact_view));
            return head;
        }
        position -= 1;
    }
    proof {
        assert forall|index: int| !separator_at(compact_view, index) by {
            if separator_at(compact_view, index) {
                assert(index + 1 < compact_view.len());
            }
        }
    }
    compact
}

// ---------------------------------------------------------------------
// Refusals

/// The block a refused variant sits in.
#[derive(Debug, Clone, Copy, PartialEq, Eq, Structural)]
pub enum BlockKind {
    Request,
    Reply,
    Event,
}

/// The role of an observable event record.
#[derive(Debug, Clone, Copy, PartialEq, Eq, Structural)]
pub enum EventRole {
    Operation,
    Effect,
}

/// A record head the observable block reserves for itself.
#[derive(Debug, Clone, Copy, PartialEq, Eq, Structural)]
pub enum ReservedHead {
    /// `ObserverSubscriptionToken`.
    SubscriptionToken,
    /// `ObserverSubscriptionOpened`.
    SubscriptionOpened,
}

/// Why a channel declaration is refused. Positions index the variants of
/// the named block, the streams, or the events a stream lists.
#[allow(inconsistent_fields)]
#[derive(Debug, Clone, Copy, PartialEq, Eq, Structural)]
pub enum ChannelSpecError {
    /// The observable operation and effect events are the same record.
    ObservableEventsNotDistinct,
    /// An observable event record takes a reserved record head.
    ObservableEventReserved { role: EventRole, reserved: ReservedHead },
    /// A request operation is named `Tap` or `Untap`, which the observable
    /// block injects.
    ReservedOperation { variant: usize },
    /// A reply variant is named `ObserverSubscriptionOpened`.
    ReservedReplyVariant { variant: usize },
    /// An event variant is named after an observable event record.
    EventVariantCollision { variant: usize },
    /// An event payload projects to the head of an observable event record.
    EventPayloadCollision { variant: usize },
    /// A stream is named `ObserverStream`.
    ReservedStream { stream: usize },
    /// A variant repeats an earlier variant's name in the same block.
    DuplicateVariant { block: BlockKind, variant: usize },
    /// A variant's payload projects to the record head of the earlier
    /// variant `prior` in the same block.
    DuplicateRecordHead { block: BlockKind, variant: usize, prior: usize },
    /// Streams are declared without an event block.
    StreamsWithoutEvents,
    /// An event block is declared without streams.
    EventsWithoutStreams,
    /// An operation opens a stream that is not declared.
    UnresolvedOpens { variant: usize },
    /// No operation opens the stream.
    OrphanStream { stream: usize },
    /// An event belongs to a stream that is not declared.
    UnresolvedBelongs { variant: usize },
    /// An event does not say which stream it belongs to.
    MissingBelongs { variant: usize },
    /// A stream's `opened` names no reply variant.
    UnresolvedOpened { stream: usize },
    /// A stream lists an event that names no event variant.
    UnresolvedStreamEvent { stream: usize, event: usize },
    /// A stream lists the event variant `variant`, which belongs to another
    /// stream.
    EventBelongsElsewhere { stream: usize, event: usize, variant: usize },
    /// A stream's `close` names no request variant.
    UnresolvedClose { stream: usize },
    /// The payload of the close operation `variant` is not the stream's
    /// token type.
    CloseTokenMismatch { stream: usize, variant: usize },
}

/// The first refusal of two, in order.
pub open spec fn either(first: Option<ChannelSpecError>, second: Option<ChannelSpecError>) -> Option<ChannelSpecError> {
    match first {
        Some(error) => Some(error),
        None => second,
    }
}

/// A refusal as the result of a check.
pub open spec fn as_result(problem: Option<ChannelSpecError>) -> Result<(), ChannelSpecError> {
    match problem {
        Some(error) => Err(error),
        None => Ok(()),
    }
}

// ---------------------------------------------------------------------
// Views of a declaration

pub open spec fn views(texts: Seq<String>) -> Seq<Seq<char>> {
    texts.map_values(|text: String| text@)
}

pub open spec fn request_names(channel: ChannelSpec) -> Seq<Seq<char>> {
    channel.request.variants@.map_values(|variant: RequestVariantSpec| variant.variant_name@)
}

pub open spec fn reply_names(channel: ChannelSpec) -> Seq<Seq<char>> {
    channel.reply.variants@.map_values(|variant: ReplyVariantSpec| variant.variant_name@)
}

/// The event variants, none when the channel declares no event block.
pub open spec fn event_variants(channel: ChannelSpec) -> Seq<EventVariantSpec> {
    match channel.event {
        Some(block) => block.variants@,
        None => Seq::empty(),
    }
}

pub open spec fn event_names(channel: ChannelSpec) -> Seq<Seq<char>> {
    event_variants(channel).map_values(|variant: EventVariantSpec| variant.variant_name@)
}

pub open spec fn stream_names(channel: ChannelSpec) -> Seq<Seq<char>> {
    channel.streams@.map_values(|stream: StreamBlockSpec| stream.name@)
}

/// Record heads of request payloads.
pub open spec fn request_heads(channel: ChannelSpec) -> Seq<Option<Seq<char>>> {
    channel.request.variants@.map_values(
        |variant: RequestVariantSpec| Some(record_head(variant.payload_type@)),
    )
}

/// Record heads of reply payloads; a unit reply has none.
pub open spec fn reply_heads(channel: ChannelSpec) -> Seq<Option<Seq<char>>> {
    channel.reply.variants@.map_values(
        |variant: ReplyVariantSpec|
            match variant.payload_type {
                Some(payload) => Some(record_head(payload@)),
                None => None,
            },
    )
}

/// Record heads of event payloads.
pub open spec fn event_heads(channel: ChannelSpec) -> Seq<Option<Seq<char>>> {
    event_variants(channel).map_values(
        |variant: EventVariantSpec| Some(record_head(variant.payload_type@)),
    )
}

// ---------------------------------------------------------------------
// Index properties

/// The name at an index repeats a name at an earlier index.
pub open spec fn repeats_earlier(names: Seq<Seq<char>>) -> spec_fn(int) -> bool {
    |index: int| exists|earlier: int| 0 <= earlier < index && names[earlier] == names[index]
}

/// The name at an index is `name`.
pub open spec fn is_named(names: Seq<Seq<char>>, name: Seq<char>) -> spec_fn(int) -> bool {
    |index: int| names[index] == name
}

/// The head at an index exists and repeats a head at an earlier index.
pub open spec fn repeats_earlier_head(heads: Seq<Option<Seq<char>>>) -> spec_fn(int) -> bool {
    |index: int|
        heads[index] is Some && exists|earlier: int| 0 <= earlier < index && heads[earlier] == heads[index]
}

/// The head at an index equals the head at `index`.
pub open spec fn same_head(heads: Seq<Option<Seq<char>>>, index: int) -> spec_fn(int) -> bool {
    |earlier: int| heads[earlier] == heads[index]
}

/// The first position of a search as a `usize`.
pub open spec fn index_option(found: Option<int>) -> Option<usize> {
    match found {
        Some(index) => Some(index as usize),
        None => None,
    }
}

// ---------------------------------------------------------------------
// Checks

/// The operation is named `Tap` or `Untap`.
pub open spec fn is_observer_verb(names: Seq<Seq<char>>) -> spec_fn(int) -> bool {
    |index: int| names[index] == "Tap"@ || names[index] == "Untap"@
}

/// The event variant's name or payload head is one of the observable
/// event records.
pub open spec fn collides_with_events(
    variants: Seq<EventVariantSpec>,
    operation: Seq<char>,
    effect: Seq<char>,
) -> spec_fn(int) -> bool {
    |index: int|
        variants[index].variant_name@ == operation || variants[index].variant_name@ == effect
            || record_head(variants[index].payload_type@) == operation || record_head(
            variants[index].payload_type@,
        ) == effect
}

/// The first collision of a declaration with what its observable block
/// injects.
pub open spec fn observable_collision(channel: ChannelSpec) -> Option<ChannelSpecError> {
    match channel.observable {
        None => None,
        Some(observable) => {
            let operation = observable.operation_event@;
            let effect = observable.effect_event@;
            if operation == effect {
                Some(ChannelSpecError::ObservableEventsNotDistinct)
            } else if operation == "ObserverSubscriptionToken"@ {
                Some(ChannelSpecError::ObservableEventReserved { role: EventRole::Operation, reserved: ReservedHead::SubscriptionToken })
            } else if effect == "ObserverSubscriptionToken"@ {
                Some(ChannelSpecError::ObservableEventReserved { role: EventRole::Effect, reserved: ReservedHead::SubscriptionToken })
            } else if operation == "ObserverSubscriptionOpened"@ {
                Some(ChannelSpecError::ObservableEventReserved { role: EventRole::Operation, reserved: ReservedHead::SubscriptionOpened })
            } else if effect == "ObserverSubscriptionOpened"@ {
                Some(ChannelSpecError::ObservableEventReserved { role: EventRole::Effect, reserved: ReservedHead::SubscriptionOpened })
            } else {
                match first_index(request_names(channel).len(), is_observer_verb(request_names(channel))) {
                    Some(index) => Some(ChannelSpecError::ReservedOperation { variant: index as usize }),
                    None => match first_index(reply_names(channel).len(), is_named(reply_names(channel), "ObserverSubscriptionOpened"@)) {
                        Some(index) => Some(ChannelSpecError::ReservedReplyVariant { variant: index as usize }),
                        None => either(
                            match first_index(event_variants(channel).len(), collides_with_events(event_variants(channel), operation, effect)) {
                                Some(index) => if event_variants(channel)[index].variant_name@ == operation || event_variants(channel)[index].variant_name@ == effect {
                                    Some(ChannelSpecError::EventVariantCollision { variant: index as usize })
                                } else {
                                    Some(ChannelSpecError::EventPayloadCollision { variant: index as usize })
                                },
                                None => None,
                            },
                            match first_index(stream_names(channel).len(), is_named(stream_names(channel), "ObserverStream"@)) {
                                Some(index) => Some(ChannelSpecError::ReservedStream { stream: index as usize }),
                                None => None,
                            },
                        ),
                    },
                }
            }
        },
    }
}

/// The first variant that repeats an earlier variant's name in its block.
pub open spec fn variant_repetition(channel: ChannelSpec) -> Option<ChannelSpecError> {
    match first_index(request_names(channel).len(), repeats_earlier(request_names(channel))) {
        Some(index) => Some(ChannelSpecError::DuplicateVariant { block: BlockKind::Request, variant: index as usize }),
        None => match first_index(reply_names(channel).len(), repeats_earlier(reply_names(channel))) {
            Some(index) => Some(ChannelSpecError::DuplicateVariant { block: BlockKind::Reply, variant: index as usize }),
            None => match first_index(event_names(channel).len(), repeats_earlier(event_names(channel))) {
                Some(index) => Some(ChannelSpecError::DuplicateVariant { block: BlockKind::Event, variant: index as usize }),
                None => None,
            },
        },
    }
}

/// The first payload of a block whose record head repeats an earlier one.
pub open spec fn head_repetition_in(heads: Seq<Option<Seq<char>>>, block: BlockKind) -> Option<ChannelSpecError> {
    match first_index(heads.len(), repeats_earlier_head(heads)) {
        Some(index) => match first_index(index as nat, same_head(heads, index)) {
            Some(prior) => Some(ChannelSpecError::DuplicateRecordHead { block, variant: index as usize, prior: prior as usize }),
            None => None,
        },
        None => None,
    }
}

/// The first repeated record head, in request, reply and event order.
pub open spec fn head_repetition(channel: ChannelSpec) -> Option<ChannelSpecError> {
    either(
        head_repetition_in(request_heads(channel), BlockKind::Request),
        either(
            head_repetition_in(reply_heads(channel), BlockKind::Reply),
            head_repetition_in(event_heads(channel), BlockKind::Event),
        ),
    )
}

/// The streams the operations open, in operation order.
pub open spec fn request_opens(channel: ChannelSpec) -> Seq<Option<Seq<char>>> {
    channel.request.variants@.map_values(
        |variant: RequestVariantSpec|
            match variant.opens {
                Some(stream) => Some(stream@),
                None => None,
            },
    )
}

/// The operation opens a stream that is not declared.
pub open spec fn opens_unknown_stream(channel: ChannelSpec) -> spec_fn(int) -> bool {
    |index: int|
        request_opens(channel)[index] matches Some(stream) && !stream_names(channel).contains(stream)
}

/// No operation opens the stream.
pub open spec fn is_orphan_stream(channel: ChannelSpec) -> spec_fn(int) -> bool {
    |index: int| !request_opens(channel).contains(Some(stream_names(channel)[index]))
}

/// The event does not belong to a declared stream.
pub open spec fn belongs_nowhere(channel: ChannelSpec) -> spec_fn(int) -> bool {
    |index: int|
        match event_variants(channel)[index].belongs {
            Some(stream) => !stream_names(channel).contains(stream@),
            None => true,
        }
}

/// What is wrong with the `event`-th event a stream lists, if anything.
pub open spec fn stream_event_problem(channel: ChannelSpec, stream: int, event: int) -> Option<ChannelSpecError> {
    let name = channel.streams@[stream].events@[event]@;
    match first_index(event_names(channel).len(), is_named(event_names(channel), name)) {
        None => Some(ChannelSpecError::UnresolvedStreamEvent { stream: stream as usize, event: event as usize }),
        Some(variant) => match event_variants(channel)[variant].belongs {
            Some(belongs) => if belongs@ != channel.streams@[stream].name@ {
                Some(ChannelSpecError::EventBelongsElsewhere { stream: stream as usize, event: event as usize, variant: variant as usize })
            } else {
                None
            },
            None => None,
        },
    }
}

/// The `event`-th event a stream lists is refused.
pub open spec fn has_event_problem(channel: ChannelSpec, stream: int) -> spec_fn(int) -> bool {
    |event: int| stream_event_problem(channel, stream, event) is Some
}

/// What is wrong with the cross-references of a stream, if anything.
pub open spec fn stream_problem(channel: ChannelSpec, stream: int) -> Option<ChannelSpecError> {
    let declared = channel.streams@[stream];
    if !reply_names(channel).contains(declared.opened@) {
        Some(ChannelSpecError::UnresolvedOpened { stream: stream as usize })
    } else {
        match first_index(declared.events@.len(), has_event_problem(channel, stream)) {
            Some(event) => stream_event_problem(channel, stream, event),
            None => match first_index(request_names(channel).len(), is_named(request_names(channel), declared.close@)) {
                None => Some(ChannelSpecError::UnresolvedClose { stream: stream as usize }),
                Some(variant) => if declared.token@ != channel.request.variants@[variant].payload_type@ {
                    Some(ChannelSpecError::CloseTokenMismatch { stream: stream as usize, variant: variant as usize })
                } else {
                    None
                },
            },
        }
    }
}

/// The stream's cross-references are refused.
pub open spec fn has_stream_problem(channel: ChannelSpec) -> spec_fn(int) -> bool {
    |stream: int| stream_problem(channel, stream) is Some
}

/// The first refused relation among operations, streams and events.
pub open spec fn stream_relation_problem(channel: ChannelSpec) -> Option<ChannelSpecError> {
    let has_streams = channel.streams@.len() > 0;
    let has_events = channel.event is Some;
    if has_streams && !has_events {
        Some(ChannelSpecError::StreamsWithoutEvents)
    } else if has_events && !has_streams {
        Some(ChannelSpecError::EventsWithoutStreams)
    } else {
        match first_index(channel.request.variants@.len(), opens_unknown_stream(channel)) {
            Some(index) => Some(ChannelSpecError::UnresolvedOpens { variant: index as usize }),
            None => match first_index(channel.streams@.len(), is_orphan_stream(channel)) {
                Some(index) => Some(ChannelSpecError::OrphanStream { stream: index as usize }),
                None => match first_index(event_variants(channel).len(), belongs_nowhere(channel)) {
                    Some(index) => if event_variants(channel)[index].belongs is Some {
                        Some(ChannelSpecError::UnresolvedBelongs { variant: index as usize })
                    } else {
                        Some(ChannelSpecError::MissingBelongs { variant: index as usize })
                    },
                    None => match first_index(channel.streams@.len(), has_stream_problem(channel)) {
                        Some(stream) => stream_problem(channel, stream),
                        None => None,
                    },
                },
            },
        }
    }
}

/// The first refusal of a declaration of a binary channel: collisions
/// with the observable block, then repeated variant names, then broken
/// stream relations. Variants of a binary channel may share a payload
/// type, so record heads are not checked here.
pub open spec fn channel_problem(channel: ChannelSpec) -> Option<ChannelSpecError> {
    either(
        observable_collision(channel),
        either(variant_repetition(channel), stream_relation_problem(channel)),
    )
}

// ---------------------------------------------------------------------
// Executable helpers

pub open spec fn option_views(texts: Seq<Option<String>>) -> Seq<Option<Seq<char>>> {
    texts.map_values(
        |text: Option<String>|
            match text {
                Some(inner) => Some(inner@),
                None => None,
            },
    )
}

fn clone_text(text: &String) -> (copy: String)
    ensures
        copy@ == text@,
{
    text.clone()
}

fn clone_optional_text(text: &Option<String>) -> (copy: Option<String>)
    ensures
        match copy {
            Some(inner) => text matches Some(given) && inner@ == given@,
            None => text is None,
        },
{
    match text {
        Some(inner) => Some(clone_text(inner)),
        None => None,
    }
}

fn request_name_list(channel: &ChannelSpec) -> (names: Vec<String>)
    ensures
        views(names@) == request_names(*channel),
{
    let variants = &channel.request.variants;
    let mut names: Vec<String> = Vec::new();
    let mut index: usize = 0;
    while index < variants.len()
        invariant
            index <= variants@.len(),
            names@.len() == index,
            forall|position: int| 0 <= position < index ==> #[trigger] names@[position]@ == variants@[position].variant_name@,
        decreases variants@.len() - index,
    {
        names.push(clone_text(&variants[index].variant_name));
        index += 1;
    }
    assert(views(names@) =~= request_names(*channel));
    names
}

fn reply_name_list(channel: &ChannelSpec) -> (names: Vec<String>)
    ensures
        views(names@) == reply_names(*channel),
{
    let variants = &channel.reply.variants;
    let mut names: Vec<String> = Vec::new();
    let mut index: usize = 0;
    while index < variants.len()
        invariant
            index <= variants@.len(),
            names@.len() == index,
            forall|position: int| 0 <= position < index ==> #[trigger] names@[position]@ == variants@[position].variant_name@,
        decreases variants@.len() - index,
    {
        names.push(clone_text(&variants[index].variant_name));
        index += 1;
    }
    assert(views(names@) =~= reply_names(*channel));
    names
}

fn event_name_list(channel: &ChannelSpec) -> (names: Vec<String>)
    ensures
        views(names@) == event_names(*channel),
{
    let mut names: Vec<String> = Vec::new();
    match &channel.event {
        None => {
            assert(views(names@) =~= event_names(*channel));
        },
        Some(block) => {
            let variants = &block.variants;
            let mut index: usize = 0;
            while index < variants.len()
                invariant
                    index <= variants@.len(),
                    names@.len() == index,
                    forall|position: int| 0 <= position < index ==> #[trigger] names@[position]@ == variants@[position].variant_name@,
                decreases variants@.len() - index,
            {
                names.push(clone_text(&variants[index].variant_name));
                index += 1;
            }
            assert(views(names@) =~= event_names(*channel));
        },
    }
    names
}

fn stream_name_list(channel: &ChannelSpec) -> (names: Vec<String>)
    ensures
        views(names@) == stream_names(*channel),
{
    let streams = &channel.streams;
    let mut names: Vec<String> = Vec::new();
    let mut index: usize = 0;
    while index < streams.len()
        invariant
            index <= streams@.len(),
            names@.len() == index,
            forall|position: int| 0 <= position < index ==> #[trigger] names@[position]@ == streams@[position].name@,
        decreases streams@.len() - index,
    {
        names.push(clone_text(&streams[index].name));
        index += 1;
    }
    assert(views(names@) =~= stream_names(*channel));
    names
}

fn request_head_list(channel: &ChannelSpec) -> (heads: Vec<Option<String>>)
    ensures
        option_views(heads@) == request_heads(*channel),
{
    let variants = &channel.request.variants;
    let mut heads: Vec<Option<String>> = Vec::new();
    let mut index: usize = 0;
    while index < variants.len()
        invariant
            index <= variants@.len(),
            heads@.len() == index,
            forall|position: int| 0 <= position < index ==> (#[trigger] heads@[position] matches Some(head) && head@ == record_head(variants@[position].payload_type@)),
        decreases variants@.len() - index,
    {
        heads.push(Some(projected_record_head(&variants[index].payload_type)));
        index += 1;
    }
    assert(option_views(heads@) =~= request_heads(*channel));
    heads
}

fn reply_head_list(channel: &ChannelSpec) -> (heads: Vec<Option<String>>)
    ensures
        option_views(heads@) == reply_heads(*channel),
{
    let variants = &channel.reply.variants;
    let mut heads: Vec<Option<String>> = Vec::new();
    let mut index: usize = 0;
    while index < variants.len()
        invariant
            index <= variants@.len(),
            heads@.len() == index,
            forall|position: int| 0 <= position < index ==> match #[trigger] heads@[position] {
                Some(head) => variants@[position].payload_type matches Some(payload) && head@ == record_head(payload@),
                None => variants@[position].payload_type is None,
            },
        decreases variants@.len() - index,
    {
        let head = match &variants[index].payload_type {
            Some(payload) => Some(projected_record_head(payload)),
            None => None,
        };
        heads.push(head);
        index += 1;
    }
    assert(option_views(heads@) =~= reply_heads(*channel));
    heads
}

fn event_head_list(channel: &ChannelSpec) -> (heads: Vec<Option<String>>)
    ensures
        option_views(heads@) == event_heads(*channel),
{
    let mut heads: Vec<Option<String>> = Vec::new();
    match &channel.event {
        None => {
            assert(option_views(heads@) =~= event_heads(*channel));
        },
        Some(block) => {
            let variants = &block.variants;
            let mut index: usize = 0;
            while index < variants.len()
                invariant
                    index <= variants@.len(),
                    heads@.len() == index,
                    event_variants(*channel) == variants@,
                    forall|position: int| 0 <= position < index ==> (#[trigger] heads@[position] matches Some(head) && head@ == record_head(variants@[position].payload_type@)),
                decreases variants@.len() - index,
            {
                heads.push(Some(projected_record_head(&variants[index].payload_type)));
                index += 1;
            }
            assert(option_views(heads@) =~= event_heads(*channel));
        },
    }
    heads
}

fn opens_list(channel: &ChannelSpec) -> (opens: Vec<Option<String>>)
    ensures
        option_views(opens@) == request_opens(*channel),
{
    let variants = &channel.request.variants;
    let mut opens: Vec<Option<String>> = Vec::new();
    let mut index: usize = 0;
    while index < variants.len()
        invariant
            index <= variants@.len(),
            opens@.len() == index,
            forall|position: int| 0 <= position < index ==> match #[trigger] opens@[position] {
                Some(stream) => variants@[position].opens matches Some(given) && stream@ == given@,
                None => variants@[position].opens is None,
            },
        decreases variants@.len() - index,
    {
        opens.push(clone_optional_text(&variants[index].opens));
        index += 1;
    }
    assert(option_views(opens@) =~= request_opens(*channel));
    opens
}

/// Whether `name` is one of `names`.
fn contains_name(names: &Vec<String>, name: &String) -> (found: bool)
    ensures
        found == views(names@).contains(name@),
{
    let mut index: usize = 0;
    while index < names.len()
        invariant
            index <= names@.len(),
            forall|position: int| 0 <= position < index ==> views(names@)[position] != name@,
        decreases names@.len() - index,
    {
        if str_equal(names[index].as_str(), name.as_str()) {
            assert(views(names@)[index as int] == name@);
            return true;
        }
        index += 1;
    }
    false
}

/// Whether the optional name `name` is one of `texts`.
fn contains_optional_name(texts: &Vec<Option<String>>, name: &String) -> (found: bool)
    ensures
        found == option_views(texts@).contains(Some(name@)),
{
    let mut index: usize = 0;
    while index < texts.len()
        invariant
            index <= texts@.len(),
            forall|position: int| 0 <= position < index ==> option_views(texts@)[position] != Some(name@),
        decreases texts@.len() - index,
    {
        if let Some(text) = &texts[index] {
            if str_equal(text.as_str(), name.as_str()) {
                assert(option_views(texts@)[index as int] == Some(name@));
                return true;
            }
        }
        index += 1;
    }
    false
}

/// The first position whose name is `name`.
fn first_named(names: &Vec<String>, name: &str) -> (found: Option<usize>)
    ensures
        found == index_option(first_index(views(names@).len(), is_named(views(names@), name@))),
        found matches Some(index) ==> first_index(views(names@).len(), is_named(views(names@), name@)) == Some(index as int),
        found matches Some(index) ==> is_first_index(views(names@).len(), is_named(views(names@), name@), index as int),
{
    let ghost property = is_named(views(names@), name@);
    let mut index: usize = 0;
    while index < names.len()
        invariant
            index <= names@.len(),
            property == is_named(views(names@), name@),
            no_index(index as nat, property),
        decreases names@.len() - index,
    {
        if str_equal(names[index].as_str(), name) {
            proof {
                lemma_found_first(views(names@).len(), property, index as int);
            }
            return Some(index);
        }
        index += 1;
    }
    proof {
        lemma_found_none(views(names@).len(), property);
    }
    None
}

/// Whether the name at `index` repeats an earlier name.
fn appears_earlier(names: &Vec<String>, index: usize) -> (found: bool)
    requires
        index < names@.len(),
    ensures
        found == repeats_earlier(views(names@))(index as int),
{
    let mut earlier: usize = 0;
    while earlier < index
        invariant
            index < names@.len(),
            earlier <= index,
            forall|position: int| 0 <= position < earlier ==> views(names@)[position] != views(names@)[index as int],
        decreases index - earlier,
    {
        if str_equal(names[earlier].as_str(), names[index].as_str()) {
            assert(views(names@)[earlier as int] == views(names@)[index as int]);
            return true;
        }
        earlier += 1;
    }
    false
}

/// The first position whose name repeats an earlier name.
fn first_repeat(names: &Vec<String>) -> (found: Option<usize>)
    ensures
        found == index_option(first_index(views(names@).len(), repeats_earlier(views(names@)))),
{
    let ghost property = repeats_earlier(views(names@));
    let mut index: usize = 0;
    while index < names.len()
        invariant
            index <= names@.len(),
            property == repeats_earlier(views(names@)),
            no_index(index as nat, property),
        decreases names@.len() - index,
    {
        if appears_earlier(names, index) {
            proof {
                lemma_found_first(views(names@).len(), property, index as int);
            }
            return Some(index);
        }
        index += 1;
    }
    proof {
        lemma_found_none(views(names@).len(), property);
    }
    None
}

/// Whether two optional texts hold the same text.
fn same_optional_text(left: &Option<String>, right: &Option<String>) -> (same: bool)
    ensures
        same == (match left {
            Some(text) => Some(text@),
            None => None::<Seq<char>>,
        } == match right {
            Some(text) => Some(text@),
            None => None::<Seq<char>>,
        }),
{
    match (left, right) {
        (Some(left), Some(right)) => str_equal(left.as_str(), right.as_str()),
        (None, None) => true,
        _ => false,
    }
}

/// The first position before `index` whose head equals the head at
/// `index`.
fn first_same_head(heads: &Vec<Option<String>>, index: usize) -> (found: Option<usize>)
    requires
        index < heads@.len(),
    ensures
        found == index_option(first_index(index as nat, same_head(option_views(heads@), index as int))),
{
    let ghost property = same_head(option_views(heads@), index as int);
    let mut earlier: usize = 0;
    while earlier < index
        invariant
            index < heads@.len(),
            earlier <= index,
            property == same_head(option_views(heads@), index as int),
            no_index(earlier as nat, property),
        decreases index - earlier,
    {
        if same_optional_text(&heads[earlier], &heads[index]) {
            proof {
                lemma_found_first(index as nat, property, earlier as int);
            }
            return Some(earlier);
        }
        earlier += 1;
    }
    proof {
        lemma_found_none(index as nat, property);
    }
    None
}

/// The first repeated record head of a block.
fn check_head_repetition(heads: &Vec<Option<String>>, block: BlockKind) -> (result: Result<(), ChannelSpecError>)
    ensures
        result == as_result(head_repetition_in(option_views(heads@), block)),
{
    let ghost views_of = option_views(heads@);
    let ghost property = repeats_earlier_head(views_of);
    let mut index: usize = 0;
    while index < heads.len()
        invariant
            index <= heads@.len(),
            views_of == option_views(heads@),
            property == repeats_earlier_head(views_of),
            no_index(index as nat, property),
        decreases heads@.len() - index,
    {
        if heads[index].is_some() {
            match first_same_head(heads, index) {
                Some(prior) => {
                    proof {
                        crate::search::lemma_first_index(index as nat, same_head(views_of, index as int));
                        assert(is_first_index(index as nat, same_head(views_of, index as int), prior as int));
                        assert(views_of[prior as int] == views_of[index as int]);
                        assert(property(index as int));
                        lemma_found_first(heads@.len(), property, index as int);
                    }
                    return Err(ChannelSpecError::DuplicateRecordHead { block, variant: index, prior });
                },
                None => {
                    proof {
                        crate::search::lemma_first_index(index as nat, same_head(views_of, index as int));
                        assert forall|earlier: int| 0 <= earlier < index implies views_of[earlier] != views_of[index as int] by {
                            assert(!same_head(views_of, index as int)(earlier));
                        }
                        assert(!property(index as int));
                    }
                },
            }
        }
        index += 1;
    }
    proof {
        lemma_found_none(heads@.len(), property);
    }
    Ok(())
}

// ---------------------------------------------------------------------
// Validation

/// Refuses a declaration that collides with what its observable block
/// injects: the two event records must differ and avoid the reserved
/// heads, no operation may be named `Tap` or `Untap`, no reply variant
/// `ObserverSubscriptionOpened`, no event variant or event payload head
/// may be an observable event record, and no stream `ObserverStream`.
#[verifier::loop_isolation(false)]
pub fn validate_observable_does_not_collide(channel: &ChannelSpec) -> (result: Result<(), ChannelSpecError>)
    ensures
        result == as_result(observable_collision(*channel)),
{
    let observable = match &channel.observable {
        None => return Ok(()),
        Some(observable) => observable,
    };
    let operation = observable.operation_event.as_str();
    let effect = observable.effect_event.as_str();
    if str_equal(operation, effect) {
        return Err(ChannelSpecError::ObservableEventsNotDistinct);
    }
    if str_equal(operation, "ObserverSubscriptionToken") {
        return Err(ChannelSpecError::ObservableEventReserved { role: EventRole::Operation, reserved: ReservedHead::SubscriptionToken });
    }
    if str_equal(effect, "ObserverSubscriptionToken") {
        return Err(ChannelSpecError::ObservableEventReserved { role: EventRole::Effect, reserved: ReservedHead::SubscriptionToken });
    }
    if str_equal(operation, "ObserverSubscriptionOpened") {
        return Err(ChannelSpecError::ObservableEventReserved { role: EventRole::Operation, reserved: ReservedHead::SubscriptionOpened });
    }
    if str_equal(effect, "ObserverSubscriptionOpened") {
        return Err(ChannelSpecError::ObservableEventReserved { role: EventRole::Effect, reserved: ReservedHead::SubscriptionOpened });
    }
    let request = request_name_list(channel);
    let ghost verbs = is_observer_verb(request_names(*channel));
    let mut index: usize = 0;
    while index < request.len()
        invariant
            index <= request@.len(),
            views(request@) == request_names(*channel),
            verbs == is_observer_verb(request_names(*channel)),
            no_index(index as nat, verbs),
        decreases request@.len() - index,
    {
        if str_equal(request[index].as_str(), "Tap") || str_equal(request[index].as_str(), "Untap") {
            proof {
                lemma_found_first(request_names(*channel).len(), verbs, index as int);
            }
            return Err(ChannelSpecError::ReservedOperation { variant: index });
        }
        index += 1;
    }
    proof {
        lemma_found_none(request_names(*channel).len(), verbs);
    }
    let reply = reply_name_list(channel);
    if let Some(index) = first_named(&reply, "ObserverSubscriptionOpened") {
        return Err(ChannelSpecError::ReservedReplyVariant { variant: index });
    }
    let ghost colliding = collides_with_events(event_variants(*channel), operation@, effect@);
    if let Some(block) = &channel.event {
        let variants = &block.variants;
        let mut index: usize = 0;
        while index < variants.len()
            invariant
                index <= variants@.len(),
                variants@ == event_variants(*channel),
                colliding == collides_with_events(event_variants(*channel), operation@, effect@),
                no_index(index as nat, colliding),
            decreases variants@.len() - index,
        {
            let name = variants[index].variant_name.as_str();
            if str_equal(name, operation) || str_equal(name, effect) {
                proof {
                    lemma_found_first(variants@.len(), colliding, index as int);
                }
                return Err(ChannelSpecError::EventVariantCollision { variant: index });
            }
            let head = projected_record_head(&variants[index].payload_type);
            if str_equal(head.as_str(), operation) || str_equal(head.as_str(), effect) {
                proof {
                    lemma_found_first(variants@.len(), colliding, index as int);
                }
                return Err(ChannelSpecError::EventPayloadCollision { variant: index });
            }
            index += 1;
        }
        proof {
            lemma_found_none(variants@.len(), colliding);
        }
    }
    let streams = stream_name_list(channel);
    if let Some(index) = first_named(&streams, "ObserverStream") {
        return Err(ChannelSpecError::ReservedStream { stream: index });
    }
    Ok(())
}

/// Refuses a variant that repeats an earlier variant's name in its block.
pub fn validate_variant_uniqueness(channel: &ChannelSpec) -> (result: Result<(), ChannelSpecError>)
    ensures
        result == as_result(variant_repetition(*channel)),
{
    if let Some(index) = first_repeat(&request_name_list(channel)) {
        return Err(ChannelSpecError::DuplicateVariant { block: BlockKind::Request, variant: index });
    }
    if let Some(index) = first_repeat(&reply_name_list(channel)) {
        return Err(ChannelSpecError::DuplicateVariant { block: BlockKind::Reply, variant: index });
    }
    if let Some(index) = first_repeat(&event_name_list(channel)) {
        return Err(ChannelSpecError::DuplicateVariant { block: BlockKind::Event, variant: index });
    }
    Ok(())
}

/// Refuses a payload whose record head repeats an earlier one in its
/// block. A text decoder dispatches by record head, so a channel read as
/// text cannot hold two payload types with the same last path segment in
/// one block; a binary channel can, and [`validate`] does not ask this.
pub fn validate_record_head_uniqueness(channel: &ChannelSpec) -> (result: Result<(), ChannelSpecError>)
    ensures
        result == as_result(head_repetition(*channel)),
{
    check_head_repetition(&request_head_list(channel), BlockKind::Request)?;
    check_head_repetition(&reply_head_list(channel), BlockKind::Reply)?;
    check_head_repetition(&event_head_list(channel), BlockKind::Event)?;
    Ok(())
}

/// Checks the `event`-th event that stream `stream` lists.
#[verifier::loop_isolation(false)]
fn check_stream_event(channel: &ChannelSpec, stream: usize, event: usize, events: &Vec<String>) -> (result: Result<(), ChannelSpecError>)
    requires
        stream < channel.streams@.len(),
        event < channel.streams@[stream as int].events@.len(),
        views(events@) == event_names(*channel),
    ensures
        result == as_result(stream_event_problem(*channel, stream as int, event as int)),
{
    let declared = &channel.streams[stream];
    let name = declared.events[event].as_str();
    assert(name@ == channel.streams@[stream as int].events@[event as int]@);
    match first_named(events, name) {
        None => {
            assert(first_index(event_names(*channel).len(), is_named(event_names(*channel), name@)) is None);
            assert(stream_event_problem(*channel, stream as int, event as int) == Some(ChannelSpecError::UnresolvedStreamEvent { stream, event }));
            Err(ChannelSpecError::UnresolvedStreamEvent { stream, event })
        },
        Some(variant) => {
            proof {
                assert(first_index(event_names(*channel).len(), is_named(event_names(*channel), name@)) == Some(variant as int));
            }
            match &channel.event {
                None => {
                    assert(event_names(*channel).len() == 0);
                    Ok(())
                },
                Some(block) => match &block.variants[variant].belongs {
                    Some(belongs) => if !str_equal(belongs.as_str(), declared.name.as_str()) {
                        Err(ChannelSpecError::EventBelongsElsewhere { stream, event, variant })
                    } else {
                        Ok(())
                    },
                    None => Ok(()),
                },
            }
        },
    }
}

/// Checks the cross-references of stream `stream`: its `opened` names a
/// reply variant, each event it lists names an event variant that belongs
/// to it, its `close` names an operation, and that operation carries the
/// stream's token type.
#[verifier::loop_isolation(false)]
fn check_stream(
    channel: &ChannelSpec,
    stream: usize,
    replies: &Vec<String>,
    events: &Vec<String>,
    requests: &Vec<String>,
) -> (result: Result<(), ChannelSpecError>)
    requires
        stream < channel.streams@.len(),
        views(replies@) == reply_names(*channel),
        views(events@) == event_names(*channel),
        views(requests@) == request_names(*channel),
    ensures
        result == as_result(stream_problem(*channel, stream as int)),
{
    let declared = &channel.streams[stream];
    if !contains_name(replies, &declared.opened) {
        return Err(ChannelSpecError::UnresolvedOpened { stream });
    }
    let ghost troubled = has_event_problem(*channel, stream as int);
    let mut event: usize = 0;
    while event < declared.events.len()
        invariant
            stream < channel.streams@.len(),
            *declared == channel.streams@[stream as int],
            views(events@) == event_names(*channel),
            event <= declared.events@.len(),
            troubled == has_event_problem(*channel, stream as int),
            no_index(event as nat, troubled),
        decreases declared.events@.len() - event,
    {
        let checked = check_stream_event(channel, stream, event, events);
        if checked.is_err() {
            proof {
                lemma_found_first(declared.events@.len(), troubled, event as int);
            }
            return checked;
        }
        event += 1;
    }
    proof {
        lemma_found_none(declared.events@.len(), troubled);
    }
    match first_named(requests, declared.close.as_str()) {
        None => Err(ChannelSpecError::UnresolvedClose { stream }),
        Some(variant) => {
            proof {
                assert(first_index(request_names(*channel).len(), is_named(request_names(*channel), declared.close@)) == Some(variant as int));
            }
            if !str_equal(declared.token.as_str(), channel.request.variants[variant].payload_type.as_str()) {
                Err(ChannelSpecError::CloseTokenMismatch { stream, variant })
            } else {
                Ok(())
            }
        },
    }
}

/// Refuses broken relations among operations, streams and events: streams
/// and events come together, every `opens` names a stream, every stream is
/// opened by some operation, every event belongs to a declared stream, and
/// each stream's references resolve.
#[verifier::loop_isolation(false)]
pub fn validate_stream_relations(channel: &ChannelSpec) -> (result: Result<(), ChannelSpecError>)
    ensures
        result == as_result(stream_relation_problem(*channel)),
{
    let has_streams = channel.streams.len() > 0;
    let has_events = channel.event.is_some();
    if has_streams && !has_events {
        return Err(ChannelSpecError::StreamsWithoutEvents);
    }
    if has_events && !has_streams {
        return Err(ChannelSpecError::EventsWithoutStreams);
    }
    let streams = stream_name_list(channel);
    let opens = opens_list(channel);
    assert(opens@.len() == channel.request.variants@.len()) by {
        assert(option_views(opens@).len() == request_opens(*channel).len());
    }
    let ghost unknown = opens_unknown_stream(*channel);
    let mut index: usize = 0;
    while index < opens.len()
        invariant
            index <= opens@.len(),
            opens@.len() == channel.request.variants@.len(),
            option_views(opens@) == request_opens(*channel),
            views(streams@) == stream_names(*channel),
            unknown == opens_unknown_stream(*channel),
            no_index(index as nat, unknown),
        decreases opens@.len() - index,
    {
        if let Some(stream) = &opens[index] {
            if !contains_name(&streams, stream) {
                proof {
                    lemma_found_first(opens@.len() as nat, unknown, index as int);
                }
                return Err(ChannelSpecError::UnresolvedOpens { variant: index });
            }
        }
        index += 1;
    }
    proof {
        lemma_found_none(opens@.len() as nat, unknown);
    }
    let ghost orphan = is_orphan_stream(*channel);
    let mut index: usize = 0;
    while index < channel.streams.len()
        invariant
            index <= channel.streams@.len(),
            option_views(opens@) == request_opens(*channel),
            views(streams@) == stream_names(*channel),
            orphan == is_orphan_stream(*channel),
            no_index(index as nat, orphan),
        decreases channel.streams@.len() - index,
    {
        if !contains_optional_name(&opens, &channel.streams[index].name) {
            proof {
                lemma_found_first(channel.streams@.len(), orphan, index as int);
            }
            return Err(ChannelSpecError::OrphanStream { stream: index });
        }
        index += 1;
    }
    proof {
        lemma_found_none(channel.streams@.len(), orphan);
    }
    let ghost nowhere = belongs_nowhere(*channel);
    if let Some(block) = &channel.event {
        let variants = &block.variants;
        let mut index: usize = 0;
        while index < variants.len()
            invariant
                index <= variants@.len(),
                variants@ == event_variants(*channel),
                views(streams@) == stream_names(*channel),
                nowhere == belongs_nowhere(*channel),
                no_index(index as nat, nowhere),
            decreases variants@.len() - index,
        {
            match &variants[index].belongs {
                Some(belongs) => {
                    if !contains_name(&streams, belongs) {
                        proof {
                            lemma_found_first(variants@.len(), nowhere, index as int);
                        }
                        return Err(ChannelSpecError::UnresolvedBelongs { variant: index });
                    }
                },
                None => {
                    proof {
                        lemma_found_first(variants@.len(), nowhere, index as int);
                    }
                    return Err(ChannelSpecError::MissingBelongs { variant: index });
                },
            }
            index += 1;
        }
        proof {
            lemma_found_none(variants@.len(), nowhere);
        }
    } else {
        proof {
            lemma_found_none(0, nowhere);
        }
    }
    let replies = reply_name_list(channel);
    let events = event_name_list(channel);
    let requests = request_name_list(channel);
    let ghost troubled = has_stream_problem(*channel);
    let mut index: usize = 0;
    while index < channel.streams.len()
        invariant
            index <= channel.streams@.len(),
            views(replies@) == reply_names(*channel),
            views(events@) == event_names(*channel),
            views(requests@) == request_names(*channel),
            troubled == has_stream_problem(*channel),
            no_index(index as nat, troubled),
        decreases channel.streams@.len() - index,
    {
        let checked = check_stream(channel, index, &replies, &events, &requests);
        if checked.is_err() {
            proof {
                lemma_found_first(channel.streams@.len(), troubled, index as int);
            }
            return checked;
        }
        index += 1;
    }
    proof {
        lemma_found_none(channel.streams@.len(), troubled);
    }
    Ok(())
}

/// Runs the checks of a binary channel declaration and returns the first
/// refusal: collisions with the observable block, then repeated variant
/// names, then broken stream relations.
pub fn validate(channel: &ChannelSpec) -> (result: Result<(), ChannelSpecError>)
    ensures
        result == as_result(channel_problem(*channel)),
{
    validate_observable_does_not_collide(channel)?;
    validate_variant_uniqueness(channel)?;
    validate_stream_relations(channel)?;
    Ok(())
}

// ---------------------------------------------------------------------
// Observable augmentation

/// Two texts, or two absent texts, agree.
pub open spec fn same_optional(left: Option<String>, right: Option<String>) -> bool {
    match (left, right) {
        (Some(left), Some(right)) => left@ == right@,
        (None, None) => true,
        _ => false,
    }
}

/// An optional text holds `text`.
pub open spec fn holds_text(optional: Option<String>, text: Seq<char>) -> bool {
    optional matches Some(inner) && inner@ == text
}

pub open spec fn same_request_variant(left: RequestVariantSpec, right: RequestVariantSpec) -> bool {
    &&& left.variant_name@ == right.variant_name@
    &&& left.payload_type@ == right.payload_type@
    &&& same_optional(left.opens, right.opens)
}

pub open spec fn same_reply_variant(left: ReplyVariantSpec, right: ReplyVariantSpec) -> bool {
    &&& left.variant_name@ == right.variant_name@
    &&& same_optional(left.payload_type, right.payload_type)
}

pub open spec fn same_event_variant(left: EventVariantSpec, right: EventVariantSpec) -> bool {
    &&& left.variant_name@ == right.variant_name@
    &&& left.payload_type@ == right.payload_type@
    &&& same_optional(left.belongs, right.belongs)
}

pub open spec fn same_stream(left: StreamBlockSpec, right: StreamBlockSpec) -> bool {
    &&& left.name@ == right.name@
    &&& left.token@ == right.token@
    &&& left.opened@ == right.opened@
    &&& views(left.events@) == views(right.events@)
    &&& left.close@ == right.close@
}

/// `copy` starts with declarations that agree with each of `given`.
pub open spec fn starts_with_requests(copy: Seq<RequestVariantSpec>, given: Seq<RequestVariantSpec>) -> bool {
    given.len() <= copy.len() && forall|index: int| 0 <= index < given.len() ==> same_request_variant(#[trigger] copy[index], given[index])
}

pub open spec fn starts_with_replies(copy: Seq<ReplyVariantSpec>, given: Seq<ReplyVariantSpec>) -> bool {
    given.len() <= copy.len() && forall|index: int| 0 <= index < given.len() ==> same_reply_variant(#[trigger] copy[index], given[index])
}

pub open spec fn starts_with_events(copy: Seq<EventVariantSpec>, given: Seq<EventVariantSpec>) -> bool {
    given.len() <= copy.len() && forall|index: int| 0 <= index < given.len() ==> same_event_variant(#[trigger] copy[index], given[index])
}

pub open spec fn starts_with_streams(copy: Seq<StreamBlockSpec>, given: Seq<StreamBlockSpec>) -> bool {
    given.len() <= copy.len() && forall|index: int| 0 <= index < given.len() ==> same_stream(#[trigger] copy[index], given[index])
}

/// The type text of an observable block's filter: the named type, or the
/// generated `ObserverFilter`.
pub open spec fn filter_type_text(filter: FilterDecl) -> Seq<char> {
    match filter {
        FilterDecl::Named(name) => name@,
        FilterDecl::Default => "ObserverFilter"@,
    }
}

/// The declaration `augmented` is `channel` with what its observable block
/// injects: the `Tap` operation opening `ObserverStream` with the filter
/// as payload and the `Untap` operation carrying the subscription token,
/// the `ObserverSubscriptionOpened` reply, one event per observable event
/// record belonging to `ObserverStream` (in an event block named `Event`
/// when the channel had none), and the `ObserverStream` itself. Without an
/// observable block it is a copy. The observable block itself is dropped.
pub open spec fn is_augmentation(channel: ChannelSpec, augmented: ChannelSpec) -> bool {
    let requests = channel.request.variants@;
    let replies = channel.reply.variants@;
    let streams = channel.streams@;
    &&& augmented.name@ == channel.name@
    &&& augmented.contract@ == channel.contract@
    &&& augmented.request.name@ == channel.request.name@
    &&& augmented.reply.name@ == channel.reply.name@
    &&& augmented.observable is None
    &&& starts_with_requests(augmented.request.variants@, requests)
    &&& starts_with_replies(augmented.reply.variants@, replies)
    &&& starts_with_streams(augmented.streams@, streams)
    &&& match channel.observable {
        None => {
            &&& augmented.request.variants@.len() == requests.len()
            &&& augmented.reply.variants@.len() == replies.len()
            &&& augmented.streams@.len() == streams.len()
            &&& match (channel.event, augmented.event) {
                (None, None) => true,
                (Some(given), Some(copy)) => copy.name@ == given.name@ && copy.variants@.len() == given.variants@.len() && starts_with_events(copy.variants@, given.variants@),
                _ => false,
            }
        },
        Some(observable) => {
            let added = augmented.request.variants@;
            let operation = observable.operation_event@;
            let effect = observable.effect_event@;
            &&& added.len() == requests.len() + 2
            &&& added[requests.len() as int].variant_name@ == "Tap"@
            &&& added[requests.len() as int].payload_type@ == filter_type_text(observable.filter)
            &&& holds_text(added[requests.len() as int].opens, "ObserverStream"@)
            &&& added[requests.len() + 1int].variant_name@ == "Untap"@
            &&& added[requests.len() + 1int].payload_type@ == "ObserverSubscriptionToken"@
            &&& added[requests.len() + 1int].opens is None
            &&& augmented.reply.variants@.len() == replies.len() + 1
            &&& augmented.reply.variants@[replies.len() as int].variant_name@ == "ObserverSubscriptionOpened"@
            &&& holds_text(augmented.reply.variants@[replies.len() as int].payload_type, "ObserverSubscriptionOpened"@)
            &&& augmented.event matches Some(block) && {
                let given = event_variants(channel);
                let events = block.variants@;
                &&& block.name@ == match channel.event {
                    Some(given_block) => given_block.name@,
                    None => "Event"@,
                }
                &&& events.len() == given.len() + 2
                &&& starts_with_events(events, given)
                &&& events[given.len() as int].variant_name@ == operation
                &&& events[given.len() as int].payload_type@ == operation
                &&& holds_text(events[given.len() as int].belongs, "ObserverStream"@)
                &&& events[given.len() + 1int].variant_name@ == effect
                &&& events[given.len() + 1int].payload_type@ == effect
                &&& holds_text(events[given.len() + 1int].belongs, "ObserverStream"@)
            }
            &&& augmented.streams@.len() == streams.len() + 1
            &&& augmented.streams@[streams.len() as int].name@ == "ObserverStream"@
            &&& augmented.streams@[streams.len() as int].token@ == "ObserverSubscriptionToken"@
            &&& augmented.streams@[streams.len() as int].opened@ == "ObserverSubscriptionOpened"@
            &&& views(augmented.streams@[streams.len() as int].events@) == seq![operation, effect]
            &&& augmented.streams@[streams.len() as int].close@ == "Untap"@
        },
    }
}

fn text_of(literal: &str) -> (text: String)
    ensures
        text@ == literal@,
{
    literal.to_owned()
}

fn clone_text_list(texts: &Vec<String>) -> (copy: Vec<String>)
    ensures
        views(copy@) == views(texts@),
{
    let mut copy: Vec<String> = Vec::new();
    let mut index: usize = 0;
    while index < texts.len()
        invariant
            index <= texts@.len(),
            copy@.len() == index,
            forall|position: int| 0 <= position < index ==> #[trigger] copy@[position]@ == texts@[position]@,
        decreases texts@.len() - index,
    {
        copy.push(clone_text(&texts[index]));
        index += 1;
    }
    assert(views(copy@) =~= views(texts@));
    copy
}

fn clone_requests(variants: &Vec<RequestVariantSpec>) -> (copy: Vec<RequestVariantSpec>)
    ensures
        copy@.len() == variants@.len(),
        starts_with_requests(copy@, variants@),
{
    let mut copy: Vec<RequestVariantSpec> = Vec::new();
    let mut index: usize = 0;
    while index < variants.len()
        invariant
            index <= variants@.len(),
            copy@.len() == index,
            forall|position: int| 0 <= position < index ==> same_request_variant(#[trigger] copy@[position], variants@[position]),
        decreases variants@.len() - index,
    {
        let variant = &variants[index];
        copy.push(RequestVariantSpec {
            variant_name: clone_text(&variant.variant_name),
            payload_type: clone_text(&variant.payload_type),
            opens: clone_optional_text(&variant.opens),
        });
        index += 1;
    }
    copy
}

fn clone_replies(variants: &Vec<ReplyVariantSpec>) -> (copy: Vec<ReplyVariantSpec>)
    ensures
        copy@.len() == variants@.len(),
        starts_with_replies(copy@, variants@),
{
    let mut copy: Vec<ReplyVariantSpec> = Vec::new();
    let mut index: usize = 0;
    while index < variants.len()
        invariant
            index <= variants@.len(),
            copy@.len() == index,
            forall|position: int| 0 <= position < index ==> same_reply_variant(#[trigger] copy@[position], variants@[position]),
        decreases variants@.len() - index,
    {
        let variant = &variants[index];
        copy.push(ReplyVariantSpec {
            variant_name: clone_text(&variant.variant_name),
            payload_type: clone_optional_text(&variant.payload_type),
        });
        index += 1;
    }
    copy
}

fn clone_events(variants: &Vec<EventVariantSpec>) -> (copy: Vec<EventVariantSpec>)
    ensures
        copy@.len() == variants@.len(),
        starts_with_events(copy@, variants@),
{
    let mut copy: Vec<EventVariantSpec> = Vec::new();
    let mut index: usize = 0;
    while index < variants.len()
        invariant
            index <= variants@.len(),
            copy@.len() == index,
            forall|position: int| 0 <= position < index ==> same_event_variant(#[trigger] copy@[position], variants@[position]),
        decreases variants@.len() - index,
    {
        let variant = &variants[index];
        copy.push(EventVariantSpec {
            variant_name: clone_text(&variant.variant_name),
            payload_type: clone_text(&variant.payload_type),
            belongs: clone_optional_text(&variant.belongs),
        });
        index += 1;
    }
    copy
}

fn clone_streams(streams: &Vec<StreamBlockSpec>) -> (copy: Vec<StreamBlockSpec>)
    ensures
        copy@.len() == streams@.len(),
        starts_with_streams(copy@, streams@),
{
    let mut copy: Vec<StreamBlockSpec> = Vec::new();
    let mut index: usize = 0;
    while index < streams.len()
        invariant
            index <= streams@.len(),
            copy@.len() == index,
            forall|position: int| 0 <= position < index ==> same_stream(#[trigger] copy@[position], streams@[position]),
        decreases streams@.len() - index,
    {
        let stream = &streams[index];
        copy.push(StreamBlockSpec {
            name: clone_text(&stream.name),
            token: clone_text(&stream.token),
            opened: clone_text(&stream.opened),
            events: clone_text_list(&stream.events),
            close: clone_text(&stream.close),
        });
        index += 1;
    }
    copy
}

/// The declaration to generate code from: the channel with what its
/// observable block injects, or a copy of it when it has none.
pub fn augment_with_observable(channel: &ChannelSpec) -> (augmented: ChannelSpec)
    ensures
        is_augmentation(*channel, augmented),
{
    let mut requests = clone_requests(&channel.request.variants);
    let mut replies = clone_replies(&channel.reply.variants);
    let mut streams = clone_streams(&channel.streams);
    let observable = match &channel.observable {
        None => {
            let event = match &channel.event {
                None => None,
                Some(block) => Some(EventBlockSpec { name: clone_text(&block.name), variants: clone_events(&block.variants) }),
            };
            return ChannelSpec {
                name: clone_text(&channel.name),
                contract: clone_text(&channel.contract),
                request: RequestBlockSpec { name: clone_text(&channel.request.name), variants: requests },
                reply: ReplyBlockSpec { name: clone_text(&channel.reply.name), variants: replies },
                event,
                streams,
                observable: None,
            };
        },
        Some(observable) => observable,
    };
    let ghost given_requests = requests@;
    let filter_type = match &observable.filter {
        FilterDecl::Named(name) => clone_text(name),
        FilterDecl::Default => text_of("ObserverFilter"),
    };
    requests.push(RequestVariantSpec {
        variant_name: text_of("Tap"),
        payload_type: filter_type,
        opens: Some(text_of("ObserverStream")),
    });
    requests.push(RequestVariantSpec {
        variant_name: text_of("Untap"),
        payload_type: text_of("ObserverSubscriptionToken"),
        opens: None,
    });
    assert(starts_with_requests(requests@, channel.request.variants@)) by {
        assert forall|index: int| 0 <= index < channel.request.variants@.len() implies same_request_variant(#[trigger] requests@[index], channel.request.variants@[index]) by {
            assert(requests@[index] == given_requests[index]);
        }
    }
    let ghost given_replies = replies@;
    replies.push(ReplyVariantSpec {
        variant_name: text_of("ObserverSubscriptionOpened"),
        payload_type: Some(text_of("ObserverSubscriptionOpened")),
    });
    assert(starts_with_replies(replies@, channel.reply.variants@)) by {
        assert forall|index: int| 0 <= index < channel.reply.variants@.len() implies same_reply_variant(#[trigger] replies@[index], channel.reply.variants@[index]) by {
            assert(replies@[index] == given_replies[index]);
        }
    }
    let (event_name, mut events) = match &channel.event {
        Some(block) => (clone_text(&block.name), clone_events(&block.variants)),
        None => (text_of("Event"), Vec::new()),
    };
    let ghost given_events = events@;
    assert(starts_with_events(events@, event_variants(*channel)));
    events.push(EventVariantSpec {
        variant_name: clone_text(&observable.operation_event),
        payload_type: clone_text(&observable.operation_event),
        belongs: Some(text_of("ObserverStream")),
    });
    events.push(EventVariantSpec {
        variant_name: clone_text(&observable.effect_event),
        payload_type: clone_text(&observable.effect_event),
        belongs: Some(text_of("ObserverStream")),
    });
    assert(starts_with_events(events@, event_variants(*channel))) by {
        assert forall|index: int| 0 <= index < event_variants(*channel).len() implies same_event_variant(#[trigger] events@[index], event_variants(*channel)[index]) by {
            assert(events@[index] == given_events[index]);
        }
    }
    let mut records: Vec<String> = Vec::new();
    records.push(clone_text(&observable.operation_event));
    records.push(clone_text(&observable.effect_event));
    assert(views(records@) =~= seq![observable.operation_event@, observable.effect_event@]);
    let ghost given_streams = streams@;
    streams.push(StreamBlockSpec {
        name: text_of("ObserverStream"),
        token: text_of("ObserverSubscriptionToken"),
        opened: text_of("ObserverSubscriptionOpened"),
        events: records,
        close: text_of("Untap"),
    });
    assert(starts_with_streams(streams@, channel.streams@)) by {
        assert forall|index: int| 0 <= index < channel.streams@.len() implies same_stream(#[trigger] streams@[index], channel.streams@[index]) by {
            assert(streams@[index] == given_streams[index]);
        }
    }
    ChannelSpec {
        name: clone_text(&channel.name),
        contract: clone_text(&channel.contract),
        request: RequestBlockSpec { name: clone_text(&channel.request.name), variants: requests },
        reply: ReplyBlockSpec { name: clone_text(&channel.reply.name), variants: replies },
        event: Some(EventBlockSpec { name: event_name, variants: events }),
        streams,
        observable: None,
    }
}

// ---------------------------------------------------------------------
// What validation guarantees of the augmented declaration

/// Names without repeats, followed by names that repeat neither one
/// another nor any name before them, have no repeats.
proof fn lemma_no_repeats_extended(names: Seq<Seq<char>>, extended: Seq<Seq<char>>)
    requires
        names.len() <= extended.len(),
        forall|index: int| 0 <= index < names.len() ==> #[trigger] extended[index] == names[index],
        no_index(names.len(), repeats_earlier(names)),
        forall|earlier: int, later: int|
            0 <= earlier < later < extended.len() && names.len() <= later ==> #[trigger] extended[earlier] != #[trigger] extended[later],
    ensures
        no_index(extended.len(), repeats_earlier(extended)),
{
    assert forall|index: int| 0 <= index < extended.len() implies !#[trigger] repeats_earlier(extended)(index) by {
        if index < names.len() {
            if repeats_earlier(extended)(index) {
                let earlier = choose|earlier: int| 0 <= earlier < index && extended[earlier] == extended[index];
                assert(extended[earlier] == names[earlier]);
                assert(repeats_earlier(names)(index));
            }
        } else {
            if repeats_earlier(extended)(index) {
                let earlier = choose|earlier: int| 0 <= earlier < index && extended[earlier] == extended[index];
                assert(extended[earlier] != extended[index]);
            }
        }
    }
}

/// The names of an augmented block agree with the names of the block it
/// augments on every index the latter has.
proof fn lemma_augmented_names(channel: ChannelSpec, augmented: ChannelSpec)
    requires
        is_augmentation(channel, augmented),
    ensures
        request_names(channel).len() <= request_names(augmented).len(),
        forall|index: int| 0 <= index < request_names(channel).len() ==> #[trigger] request_names(augmented)[index] == request_names(channel)[index],
        reply_names(channel).len() <= reply_names(augmented).len(),
        forall|index: int| 0 <= index < reply_names(channel).len() ==> #[trigger] reply_names(augmented)[index] == reply_names(channel)[index],
        event_names(channel).len() <= event_names(augmented).len(),
        forall|index: int| 0 <= index < event_names(channel).len() ==> #[trigger] event_names(augmented)[index] == event_names(channel)[index],
        stream_names(channel).len() <= stream_names(augmented).len(),
        forall|index: int| 0 <= index < stream_names(channel).len() ==> #[trigger] stream_names(augmented)[index] == stream_names(channel)[index],
{
    let given_requests = channel.request.variants@;
    let requests = augmented.request.variants@;
    assert forall|index: int| 0 <= index < request_names(channel).len() implies #[trigger] request_names(augmented)[index] == request_names(channel)[index] by {
        assert(same_request_variant(requests[index], given_requests[index]));
    }
    let given_replies = channel.reply.variants@;
    let replies = augmented.reply.variants@;
    assert forall|index: int| 0 <= index < reply_names(channel).len() implies #[trigger] reply_names(augmented)[index] == reply_names(channel)[index] by {
        assert(same_reply_variant(replies[index], given_replies[index]));
    }
    let given_events = event_variants(channel);
    let events = event_variants(augmented);
    assert(starts_with_events(events, given_events));
    assert forall|index: int| 0 <= index < event_names(channel).len() implies #[trigger] event_names(augmented)[index] == event_names(channel)[index] by {
        assert(same_event_variant(events[index], given_events[index]));
    }
    let given_streams = channel.streams@;
    let streams = augmented.streams@;
    assert forall|index: int| 0 <= index < stream_names(channel).len() implies #[trigger] stream_names(augmented)[index] == stream_names(channel)[index] by {
        assert(same_stream(streams[index], given_streams[index]));
    }
}

/// A declaration that passes validation augments into one that repeats no
/// variant name.
proof fn lemma_augmented_variants_distinct(channel: ChannelSpec, augmented: ChannelSpec)
    requires
        channel_problem(channel) is None,
        is_augmentation(channel, augmented),
    ensures
        variant_repetition(augmented) is None,
{
    reveal_strlit("Tap");
    reveal_strlit("Untap");
    lemma_augmented_names(channel, augmented);
    let requests = request_names(channel);
    let replies = reply_names(channel);
    let events = event_names(channel);
    lemma_first_index(requests.len(), repeats_earlier(requests));
    lemma_first_index(replies.len(), repeats_earlier(replies));
    lemma_first_index(events.len(), repeats_earlier(events));
    let augmented_requests = request_names(augmented);
    let augmented_replies = reply_names(augmented);
    let augmented_events = event_names(augmented);
    match channel.observable {
        None => {},
        Some(observable) => {
            lemma_first_index(requests.len(), is_observer_verb(requests));
            lemma_first_index(replies.len(), is_named(replies, "ObserverSubscriptionOpened"@));
            lemma_first_index(event_variants(channel).len(), collides_with_events(event_variants(channel), observable.operation_event@, observable.effect_event@));
            assert forall|index: int| 0 <= index < requests.len() implies #[trigger] requests[index] != "Tap"@ && requests[index] != "Untap"@ by {
                assert(!is_observer_verb(requests)(index));
            }
            let count = requests.len() as int;
            assert(augmented_requests[count] == "Tap"@);
            assert(augmented_requests[count + 1] == "Untap"@);
            assert forall|earlier: int, later: int|
                0 <= earlier < later < augmented_requests.len() && requests.len() <= later implies #[trigger] augmented_requests[earlier] != #[trigger] augmented_requests[later] by {
                if earlier < count {
                    assert(augmented_requests[earlier] == requests[earlier]);
                }
            }
            assert forall|index: int| 0 <= index < replies.len() implies #[trigger] replies[index] != "ObserverSubscriptionOpened"@ by {
                assert(!is_named(replies, "ObserverSubscriptionOpened"@)(index));
            }
            assert forall|index: int| 0 <= index < events.len() implies #[trigger] events[index] != observable.operation_event@ && events[index] != observable.effect_event@ by {
                assert(!collides_with_events(event_variants(channel), observable.operation_event@, observable.effect_event@)(index));
            }
        },
    }
    lemma_no_repeats_extended(requests, augmented_requests);
    lemma_no_repeats_extended(replies, augmented_replies);
    lemma_no_repeats_extended(events, augmented_events);
    lemma_first_index(augmented_requests.len(), repeats_earlier(augmented_requests));
    lemma_first_index(augmented_replies.len(), repeats_earlier(augmented_replies));
    lemma_first_index(augmented_events.len(), repeats_earlier(augmented_events));
}

/// A stream that the augmented declaration keeps from the declaration it
/// augments keeps its cross-references.
proof fn lemma_kept_stream_resolves(channel: ChannelSpec, augmented: ChannelSpec, stream: int)
    requires
        is_augmentation(channel, augmented),
        0 <= stream < channel.streams@.len(),
        stream_problem(channel, stream) is None,
    ensures
        stream_problem(augmented, stream) is None,
{
    lemma_augmented_names(channel, augmented);
    let given = channel.streams@[stream];
    let kept = augmented.streams@[stream];
    assert(same_stream(kept, given));
    assert(reply_names(channel).contains(given.opened@));
    let opened = choose|index: int| 0 <= index < reply_names(channel).len() && reply_names(channel)[index] == given.opened@;
    assert(reply_names(augmented)[opened] == kept.opened@);
    let given_events = given.events@;
    let kept_events = kept.events@;
    assert(views(kept_events) == views(given_events));
    assert(kept_events.len() == given_events.len()) by {
        assert(views(kept_events).len() == views(given_events).len());
    }
    lemma_first_index(given_events.len(), has_event_problem(channel, stream));
    assert forall|event: int| 0 <= event < kept_events.len() implies !#[trigger] has_event_problem(augmented, stream)(event) by {
        assert(!has_event_problem(channel, stream)(event));
        let name = given_events[event]@;
        assert(kept_events[event]@ == name) by {
            assert(views(kept_events)[event] == views(given_events)[event]);
        }
        let given_names = event_names(channel);
        let names = event_names(augmented);
        assert forall|index: int| 0 <= index < given_names.len() implies #[trigger] is_named(given_names, name)(index) == is_named(names, name)(index) by {
            assert(names[index] == given_names[index]);
        }
        lemma_first_index_extends(given_names.len(), names.len(), is_named(given_names, name), is_named(names, name));
        let given_variants = event_variants(channel);
        let variants = event_variants(augmented);
        assert(starts_with_events(variants, given_variants));
        if let Some(variant) = first_index(given_names.len(), is_named(given_names, name)) {
            lemma_first_index(given_names.len(), is_named(given_names, name));
            assert(same_event_variant(variants[variant], given_variants[variant]));
        }
    }
    lemma_first_index(kept_events.len(), has_event_problem(augmented, stream));
    let given_requests = request_names(channel);
    let requests = request_names(augmented);
    assert forall|index: int| 0 <= index < given_requests.len() implies #[trigger] is_named(given_requests, given.close@)(index) == is_named(requests, kept.close@)(index) by {
        assert(requests[index] == given_requests[index]);
    }
    lemma_first_index_extends(given_requests.len(), requests.len(), is_named(given_requests, given.close@), is_named(requests, kept.close@));
    if let Some(variant) = first_index(given_requests.len(), is_named(given_requests, given.close@)) {
        lemma_first_index(given_requests.len(), is_named(given_requests, given.close@));
        assert(same_request_variant(augmented.request.variants@[variant], channel.request.variants@[variant]));
    }
}

/// The observer stream that augmentation adds resolves every
/// cross-reference when the observable block collides with nothing.
proof fn lemma_observer_stream_resolves(channel: ChannelSpec, augmented: ChannelSpec)
    requires
        is_augmentation(channel, augmented),
        channel.observable is Some,
        observable_collision(channel) is None,
    ensures
        stream_problem(augmented, channel.streams@.len() as int) is None,
{
    reveal_strlit("Tap");
    reveal_strlit("Untap");
    lemma_augmented_names(channel, augmented);
    let observable = channel.observable->Some_0;
    let operation = observable.operation_event@;
    let effect = observable.effect_event@;
    let stream = channel.streams@.len() as int;
    let added = augmented.streams@[stream];
    let replies = reply_names(augmented);
    let reply_count = channel.reply.variants@.len() as int;
    assert(replies[reply_count] == "ObserverSubscriptionOpened"@);
    assert(replies.contains(added.opened@));
    let given_events = event_names(channel);
    let events = event_names(augmented);
    let event_count = given_events.len() as int;
    lemma_first_index(event_variants(channel).len(), collides_with_events(event_variants(channel), operation, effect));
    assert forall|index: int| 0 <= index < event_count implies #[trigger] given_events[index] != operation && given_events[index] != effect by {
        assert(!collides_with_events(event_variants(channel), operation, effect)(index));
    }
    let listed = added.events@;
    assert(views(listed) == seq![operation, effect]);
    assert(listed.len() == 2) by {
        assert(views(listed).len() == 2);
    }
    assert(events[event_count] == operation);
    assert(events[event_count + 1] == effect);
    assert forall|event: int| 0 <= event < listed.len() implies !#[trigger] has_event_problem(augmented, stream)(event) by {
        let name = listed[event]@;
        assert(name == views(listed)[event]);
        let found = event_count + event;
        assert(events[found] == name);
        assert forall|earlier: int| 0 <= earlier < found implies !#[trigger] is_named(events, name)(earlier) by {
            if earlier < event_count {
                assert(events[earlier] == given_events[earlier]);
            }
        }
        lemma_found_first(events.len(), is_named(events, name), found);
        let block = augmented.event->Some_0;
        assert(event_variants(augmented)[found] == block.variants@[found]);
    }
    lemma_first_index(listed.len(), has_event_problem(augmented, stream));
    let given_requests = request_names(channel);
    let requests = request_names(augmented);
    let request_count = given_requests.len() as int;
    lemma_first_index(given_requests.len(), is_observer_verb(given_requests));
    assert(requests[request_count] == "Tap"@);
    assert(requests[request_count + 1] == "Untap"@);
    assert forall|earlier: int| 0 <= earlier < request_count + 1 implies !#[trigger] is_named(requests, "Untap"@)(earlier) by {
        if earlier < request_count {
            assert(requests[earlier] == given_requests[earlier]);
            assert(!is_observer_verb(given_requests)(earlier));
        }
    }
    lemma_found_first(requests.len(), is_named(requests, "Untap"@), request_count + 1);
}

/// A declaration that passes validation augments into one whose
/// operations, streams and events resolve every reference.
proof fn lemma_augmented_streams_resolve(channel: ChannelSpec, augmented: ChannelSpec)
    requires
        channel_problem(channel) is None,
        is_augmentation(channel, augmented),
    ensures
        stream_relation_problem(augmented) is None,
{
    lemma_augmented_names(channel, augmented);
    let given_streams = channel.streams@;
    let streams = augmented.streams@;
    let stream_count = given_streams.len() as int;
    let given_requests = channel.request.variants@;
    let requests = augmented.request.variants@;
    let request_count = given_requests.len() as int;
    let given_events = event_variants(channel);
    let events = event_variants(augmented);
    let event_count = given_events.len() as int;
    assert(starts_with_events(events, given_events));
    lemma_first_index(given_requests.len(), opens_unknown_stream(channel));
    lemma_first_index(given_streams.len(), is_orphan_stream(channel));
    lemma_first_index(given_events.len(), belongs_nowhere(channel));
    lemma_first_index(given_streams.len(), has_stream_problem(channel));
    let observed = channel.observable is Some;
    if observed {
        assert(streams[stream_count].name@ == "ObserverStream"@);
        assert(stream_names(augmented)[stream_count] == "ObserverStream"@);
        assert(request_opens(augmented)[request_count] == Some("ObserverStream"@));
    }
    assert forall|index: int| 0 <= index < requests.len() implies !#[trigger] opens_unknown_stream(augmented)(index) by {
        if index < request_count {
            assert(same_request_variant(requests[index], given_requests[index]));
            assert(request_opens(augmented)[index] == request_opens(channel)[index]);
            assert(!opens_unknown_stream(channel)(index));
            if let Some(stream) = request_opens(channel)[index] {
                let found = choose|position: int| 0 <= position < stream_names(channel).len() && stream_names(channel)[position] == stream;
                assert(stream_names(augmented)[found] == stream);
            }
        } else if index == request_count {
            assert(stream_names(augmented)[stream_count] == "ObserverStream"@);
        } else {
            assert(requests[request_count + 1].opens is None);
        }
    }
    assert forall|index: int| 0 <= index < streams.len() implies !#[trigger] is_orphan_stream(augmented)(index) by {
        if index < stream_count {
            assert(!is_orphan_stream(channel)(index));
            let name = stream_names(channel)[index];
            let found = choose|position: int| 0 <= position < request_opens(channel).len() && request_opens(channel)[position] == Some(name);
            assert(same_request_variant(requests[found], given_requests[found]));
            assert(request_opens(augmented)[found] == Some(name));
            assert(stream_names(augmented)[index] == name);
        } else {
            assert(request_opens(augmented)[request_count] == Some(stream_names(augmented)[index]));
        }
    }
    assert forall|index: int| 0 <= index < events.len() implies !#[trigger] belongs_nowhere(augmented)(index) by {
        if index < event_count {
            assert(same_event_variant(events[index], given_events[index]));
            assert(!belongs_nowhere(channel)(index));
            let stream = given_events[index].belongs->Some_0@;
            let found = choose|position: int| 0 <= position < stream_names(channel).len() && stream_names(channel)[position] == stream;
            assert(stream_names(augmented)[found] == stream);
        } else {
            let block = augmented.event->Some_0;
            assert(events[index] == block.variants@[index]);
            assert(stream_names(augmented)[stream_count] == "ObserverStream"@);
        }
    }
    assert forall|index: int| 0 <= index < streams.len() implies !#[trigger] has_stream_problem(augmented)(index) by {
        if index < stream_count {
            assert(!has_stream_problem(channel)(index));
            lemma_kept_stream_resolves(channel, augmented, index);
        } else {
            lemma_observer_stream_resolves(channel, augmented);
        }
    }
    lemma_first_index(requests.len(), opens_unknown_stream(augmented));
    lemma_first_index(streams.len(), is_orphan_stream(augmented));
    lemma_first_index(events.len(), belongs_nowhere(augmented));
    lemma_first_index(streams.len(), has_stream_problem(augmented));
}

/// Validation guards the declaration that code is generated from: when a
/// declaration passes [`validate`], the declaration that
/// [`augment_with_observable`] makes of it passes too, its injected
/// observer operations, reply, events and stream colliding with nothing
/// and resolving every reference.
pub proof fn lemma_validated_declaration_augments_validly(channel: ChannelSpec, augmented: ChannelSpec)
    requires
        channel_problem(channel) is None,
        is_augmentation(channel, augmented),
    ensures
        channel_problem(augmented) is None,
{
    lemma_augmented_variants_distinct(channel, augmented);
    lemma_augmented_streams_resolve(channel, augmented);
}

// ---------------------------------------------------------------------
// What the generated code of a channel decides

/// The names of a block's variants.
pub open spec fn block_names(channel: ChannelSpec, block: BlockKind) -> Seq<Seq<char>> {
    match block {
        BlockKind::Request => request_names(channel),
        BlockKind::Reply => reply_names(channel),
        BlockKind::Event => event_names(channel),
    }
}

/// The variant a payload of `block` whose record head is `head` decodes
/// to: the first variant so named, none when no variant is.
pub open spec fn variant_for_head(channel: ChannelSpec, block: BlockKind, head: Seq<char>) -> Option<usize> {
    index_option(first_index(block_names(channel, block).len(), is_named(block_names(channel, block), head)))
}

/// The variant of `block` that a payload with record head `head` decodes
/// to, as the generated payload codec matches heads against variant names.
pub fn payload_variant_for_head(channel: &ChannelSpec, block: BlockKind, head: &str) -> (found: Option<usize>)
    ensures
        found == variant_for_head(*channel, block, head@),
{
    let names = match block {
        BlockKind::Request => request_name_list(channel),
        BlockKind::Reply => reply_name_list(channel),
        BlockKind::Event => event_name_list(channel),
    };
    first_named(&names, head)
}

/// The names of the requests that close the streams, in stream order.
pub open spec fn close_names(channel: ChannelSpec) -> Seq<Seq<char>> {
    channel.streams@.map_values(|stream: StreamBlockSpec| stream.close@)
}

/// The stream called `name`: the first stream so named.
pub open spec fn stream_named(channel: ChannelSpec, name: Seq<char>) -> Option<usize> {
    index_option(first_index(stream_names(channel).len(), is_named(stream_names(channel), name)))
}

/// The stream the `request`-th operation opens, if it opens one.
pub open spec fn opened_stream(channel: ChannelSpec, request: int) -> Option<usize> {
    match request_opens(channel)[request] {
        Some(name) => stream_named(channel, name),
        None => None,
    }
}

/// The stream the `request`-th operation closes: the first stream whose
/// close names it.
pub open spec fn closed_stream(channel: ChannelSpec, request: int) -> Option<usize> {
    index_option(first_index(close_names(channel).len(), is_named(close_names(channel), request_names(channel)[request])))
}

/// The stream the `event`-th event belongs to.
pub open spec fn event_stream(channel: ChannelSpec, event: int) -> Option<usize> {
    match event_variants(channel)[event].belongs {
        Some(name) => stream_named(channel, name@),
        None => None,
    }
}

/// The stream-relation witnesses of a channel, each stream given by its
/// position among the declared streams.
pub struct StreamWitnesses {
    /// Per operation, the stream it opens.
    pub opened: Vec<Option<usize>>,
    /// Per operation, the stream it closes.
    pub closed: Vec<Option<usize>>,
    /// Per event, the stream it belongs to.
    pub belongs: Vec<Option<usize>>,
}

fn close_name_list(channel: &ChannelSpec) -> (names: Vec<String>)
    ensures
        views(names@) == close_names(*channel),
{
    let streams = &channel.streams;
    let mut names: Vec<String> = Vec::new();
    let mut index: usize = 0;
    while index < streams.len()
        invariant
            index <= streams@.len(),
            names@.len() == index,
            forall|position: int| 0 <= position < index ==> #[trigger] names@[position]@ == streams@[position].close@,
        decreases streams@.len() - index,
    {
        names.push(clone_text(&streams[index].close));
        index += 1;
    }
    assert(views(names@) =~= close_names(*channel));
    names
}

/// The streams each operation opens and closes and each event belongs
/// to, as the generated `opened_stream`, `closed_stream` and
/// `stream_kind` witnesses give them.
pub fn stream_witnesses(channel: &ChannelSpec) -> (witnesses: StreamWitnesses)
    ensures
        witnesses.opened@.len() == channel.request.variants@.len(),
        witnesses.closed@.len() == channel.request.variants@.len(),
        witnesses.belongs@.len() == event_variants(*channel).len(),
        forall|request: int|
            0 <= request < channel.request.variants@.len() ==> #[trigger] witnesses.opened@[request]
                == opened_stream(*channel, request),
        forall|request: int|
            0 <= request < channel.request.variants@.len() ==> #[trigger] witnesses.closed@[request]
                == closed_stream(*channel, request),
        forall|event: int|
            0 <= event < event_variants(*channel).len() ==> #[trigger] witnesses.belongs@[event]
                == event_stream(*channel, event),
{
    let streams = stream_name_list(channel);
    let closes = close_name_list(channel);
    let variants = &channel.request.variants;
    let mut opened: Vec<Option<usize>> = Vec::new();
    let mut closed: Vec<Option<usize>> = Vec::new();
    let mut index: usize = 0;
    while index < variants.len()
        invariant
            index <= variants@.len(),
            variants == &channel.request.variants,
            views(streams@) == stream_names(*channel),
            views(closes@) == close_names(*channel),
            opened@.len() == index,
            closed@.len() == index,
            forall|request: int| 0 <= request < index ==> #[trigger] opened@[request] == opened_stream(*channel, request),
            forall|request: int| 0 <= request < index ==> #[trigger] closed@[request] == closed_stream(*channel, request),
        decreases variants@.len() - index,
    {
        let opens = match &variants[index].opens {
            Some(name) => first_named(&streams, name.as_str()),
            None => None,
        };
        opened.push(opens);
        closed.push(first_named(&closes, variants[index].variant_name.as_str()));
        index += 1;
    }
    let mut belongs: Vec<Option<usize>> = Vec::new();
    match &channel.event {
        None => {},
        Some(block) => {
            let events = &block.variants;
            let mut index: usize = 0;
            while index < events.len()
                invariant
                    index <= events@.len(),
                    events@ == event_variants(*channel),
                    views(streams@) == stream_names(*channel),
                    belongs@.len() == index,
                    forall|event: int| 0 <= event < index ==> #[trigger] belongs@[event] == event_stream(*channel, event),
                decreases events@.len() - index,
            {
                let stream = match &events[index].belongs {
                    Some(name) => first_named(&streams, name.as_str()),
                    None => None,
                };
                belongs.push(stream);
                index += 1;
            }
        },
    }
    StreamWitnesses { opened, closed, belongs }
}

// ---------------------------------------------------------------------
// Laws of validation

/// A declaration with a stream whose `opened` line names no variant of the
/// reply block is refused: what [`validate`] gives it is an error.
pub proof fn lemma_unresolved_opened_is_refused(channel: ChannelSpec, stream: int)
    requires
        0 <= stream < channel.streams@.len(),
        forall|variant: int|
            0 <= variant < channel.reply.variants@.len() ==> #[trigger] channel.reply.variants@[variant].variant_name@
                != channel.streams@[stream].opened@,
    ensures
        channel_problem(channel) is Some,
        as_result(channel_problem(channel)) is Err,
{
    if reply_names(channel).contains(channel.streams@[stream].opened@) {
        let at = choose|at: int| 0 <= at < reply_names(channel).len() && reply_names(channel)[at] == channel.streams@[stream].opened@;
        assert(channel.reply.variants@[at].variant_name@ == channel.streams@[stream].opened@);
    }
    assert(stream_problem(channel, stream) is Some);
    let property = has_stream_problem(channel);
    assert(property(stream));
    lemma_first_index(channel.streams@.len(), property);
    if let Some(found) = first_index(channel.streams@.len(), property) {
        assert(is_first_index(channel.streams@.len(), property, found));
        assert(stream_problem(channel, found) is Some);
    } else {
        assert(!no_index(channel.streams@.len(), property));
    }
    assert(stream_relation_problem(channel) is Some);
}

} // verus!
