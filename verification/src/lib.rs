//! Signal frame mechanics: the wire kernel for typed inter-component
//! communication.
//!
//! The crate owns the universal request/reply spine, protocol version
//! records, the contract-bound short header, length-prefixed frame
//! framing, exchange identifiers, stream and subscription identity and
//! reply plumbing. Archive encoding of frame bodies happens outside
//! this library; here the bytes around the archive are framed and
//! checked.

pub mod binding;
pub mod caller;
pub mod channel;
pub mod channel_syntax;
pub mod command_line;
pub mod composer;
pub mod error;
pub mod exchange;
pub mod frame;
pub mod identity;
pub mod log_variant;
pub mod naming;
pub mod namespace;
pub mod non_empty;
pub mod observable;
pub mod observer;
pub mod operation_dispatch;
pub mod operation_heads;
pub mod reply;
pub mod request;
pub mod search;
pub mod subscription;
pub mod text;
pub mod version;

pub use binding::{
    BindingIdentifierError, ContractBinding, ContractId, RootCode, VariantCode, WireContract,
    WireRevision, WireRoute, WireRouteError,
};
pub use caller::{Caller, CallerIdentity, ExecutablePath, ProcessIdentifier, ProcessStartTime};
pub use command_line::{
    ClientFrame, ClientShape, CommandLineDispatch, CommandLineError, CommandLineRouteError,
    CommandLineRouteTable, CommandLineSocket, CommandLineSockets, RequestHead, RequestInput,
    RequestText, SingleArgument, SingleArgumentError,
};
pub use composer::ComposerError;
pub use error::FrameError;
pub use exchange::{
    ExchangeHandshake, ExchangeIdentifier, ExchangeLane, ExchangeMode, LaneSequence, SessionEpoch,
    StreamEventIdentifier,
};
pub use frame::{
    short_header_from_archive, short_header_from_length_prefixed, BoundExchangeFrame,
    BoundStreamingFrame, ExchangeFrame, ExchangeFrameBody, ShortHeader, StreamingFrame,
    StreamingFrameBody, SHORT_HEADER_BYTE_COUNT,
};
pub use identity::{Revision, Slot};
pub use log_variant::LogVariant;
pub use namespace::{NamespaceSection, SECTION_CUTOFF};
pub use non_empty::{NonEmpty, NonEmptyError};
pub use observable::{DefaultObserverFilter, ObservableSet, ObservationProjection, ObservedEventKind};
pub use observer::ObserverSet;
pub use operation_dispatch::{dispatch_check, operation_kind_from_short_header, OperationDispatchError};
pub use operation_heads::SignalOperationHeads;
pub use reply::{
    AcceptedOutcome, BatchErrorClassification, BatchFailureReason, CommitStatus,
    OperationFailureReason, Reply, RequestRejectionReason, RetryClassification, SubReply,
};
pub use request::{Request, RequestBuilder, RequestBuilderError, RequestPayload};
pub use subscription::SubscriptionTokenInner;
pub use version::{
    signal_frame_protocol_version, HandshakeRejectionReason, HandshakeReply, HandshakeRequest,
    ProtocolVersion,
};
