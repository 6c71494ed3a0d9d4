//! `Request<Payload>`: one or more contract payloads carried in a frame.
//!
//! A request is directly a non-empty sequence of payloads; each payload
//! is itself a contract operation whose record head names the
//! contract-local verb.

use vstd::prelude::*;

use crate::binding::{WireRoute, WireRouteError};
use crate::caller::Caller;
use crate::log_variant::LogVariant;
use crate::non_empty::{NonEmpty, NonEmptyError};

verus! {

/// One or more contract payloads that commit (or abort) as one unit.
#[derive(Debug, Clone, PartialEq, Eq)]
pub struct Request<Payload> {
    pub caller: Option<Caller>,
    pub payloads: NonEmpty<Payload>,
}

/// Marker trait of every per-channel request payload enum, with the
/// convenience that wraps a payload into a one-payload request.
pub trait RequestPayload: Sized {
    /// The request of this one payload, with no caller.
    fn into_request(self) -> (request: Request<Self>)
        ensures
            request.caller is None,
            request.payloads@ == seq![self],
    {
        Request::from_payload(self)
    }
}

impl<Payload> Request<Payload> {
    pub fn from_payloads(payloads: NonEmpty<Payload>) -> (request: Self)
        ensures
            request.caller is None,
            request.payloads == payloads,
    {
        Request { caller: None, payloads }
    }

    pub fn payloads(&self) -> (payloads: &NonEmpty<Payload>)
        ensures
            *payloads == self.payloads,
    {
        &self.payloads
    }

    pub fn caller(&self) -> (caller: Option<&Caller>)
        ensures
            caller is Some <==> self.caller is Some,
            caller matches Some(found) ==> *found == self.caller.unwrap(),
    {
        match &self.caller {
            Some(caller) => Some(caller),
            None => None,
        }
    }

    /// The same request, carrying `caller` in place of its caller.
    pub fn with_caller(self, caller: Option<Caller>) -> (request: Self)
        ensures
            request.caller == caller,
            request.payloads == self.payloads,
    {
        Request { caller, payloads: self.payloads }
    }

    /// A request of one payload.
    pub fn from_payload(payload: Payload) -> (request: Self)
        ensures
            request.caller is None,
            request.payloads@ == seq![payload],
    {
        Request { caller: None, payloads: NonEmpty::single(payload) }
    }

    /// The route of the request: the route projection of its first
    /// payload, refused when the projection has bits above the low
    /// sixteen.
    pub fn route(&self) -> (result: Result<WireRoute, WireRouteError>)
        where Payload: LogVariant,
        ensures
            route_of_projection(self.payloads@[0].spec_log_variant(), result),
    {
        let projection = self.payloads.head().log_variant();
        WireRoute::try_from_log_variant(projection)
    }
}

/// The route a log-variant projection gives: its low two bytes, refused
/// when a bit above them is set.
pub open spec fn route_of_projection(projection: u64, result: Result<WireRoute, WireRouteError>) -> bool {
    &&& result is Ok <==> crate::binding::log_variant_fits_route(projection)
    &&& result matches Ok(route) ==> route@ == (
        crate::binding::log_variant_root(projection),
        crate::binding::log_variant_variant(projection),
    )
    &&& result matches Err(error) ==> error == (WireRouteError::BitsAboveRoute { value: projection })
}

/// Builds a request of several payloads.
pub struct RequestBuilder<Payload> {
    payloads: Vec<Payload>,
}

impl<Payload> View for RequestBuilder<Payload> {
    /// The payloads gathered so far, in order.
    type V = Seq<Payload>;

    closed spec fn view(&self) -> Seq<Payload> {
        self.payloads@
    }
}

impl<Payload> Default for RequestBuilder<Payload> {
    fn default() -> (builder: Self)
        ensures
            builder@ == Seq::<Payload>::empty(),
    {
        RequestBuilder { payloads: Vec::new() }
    }
}

impl<Payload> RequestBuilder<Payload> {
    pub fn new() -> (builder: Self)
        ensures
            builder@ == Seq::<Payload>::empty(),
    {
        RequestBuilder { payloads: Vec::new() }
    }

    /// The same builder with `payload` appended.
    pub fn with(self, payload: Payload) -> (builder: Self)
        ensures
            builder@ == self@.push(payload),
    {
        let mut builder = self;
        builder.payloads.push(payload);
        builder
    }

    pub fn push(&mut self, payload: Payload)
        ensures
            final(self)@ == old(self)@.push(payload),
    {
        self.payloads.push(payload);
    }

    /// The request of the gathered payloads, refused when none was given.
    pub fn build(self) -> (result: Result<Request<Payload>, RequestBuilderError>)
        ensures
            result is Ok <==> self@.len() > 0,
            result matches Ok(request) ==> request.caller is None && request.payloads@ == self@,
            result matches Err(error) ==> error == RequestBuilderError::EmptyRequest,
    {
        match NonEmpty::try_from_vec(self.payloads) {
            Ok(payloads) => Ok(Request { caller: None, payloads }),
            Err(NonEmptyError::Empty) => Err(RequestBuilderError::EmptyRequest),
        }
    }
}

#[derive(Debug, Clone, Copy, PartialEq, Eq, Structural)]
pub enum RequestBuilderError {
    /// No payload was given.
    EmptyRequest,
}

} // verus!
