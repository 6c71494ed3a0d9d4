//! The contract-bound short header and the byte framing around an
//! archived frame body.
//!
//! The length-prefixed wire shape is: a big-endian `u32` length, then
//! the eight little-endian short-header bytes, then the archived body.
//! The short header packs the contract identity in its low thirty-two
//! bits, the wire revision in the next sixteen, then the route variant
//! byte and, in the top byte, the route root byte.

use vstd::prelude::*;
use vstd::slice::slice_subrange;

use std::marker::PhantomData;

use crate::binding::{
    archive_validation, binding_accepts, ContractBinding, ContractId, RootCode, VariantCode, WireContract, WireRevision, WireRoute,
};
use crate::error::FrameError;
use crate::exchange::{ExchangeIdentifier, StreamEventIdentifier};
use crate::reply::Reply;
use crate::request::Request;
use crate::subscription::SubscriptionTokenInner;
use crate::version::{HandshakeReply, HandshakeRequest};

verus! {

pub const SHORT_HEADER_BYTE_COUNT: usize = 8;

/// Number of bytes in the big-endian length prefix.
pub const LENGTH_PREFIX_BYTE_COUNT: usize = 4;

// ---------------------------------------------------------------------
// Header layout

/// The header value that packs a contract, a revision and a route.
pub open spec fn header_value(contract: u32, revision: u16, root: u8, variant: u8) -> u64 {
    (contract as u64) | ((revision as u64) << 32u64) | ((variant as u64) << 48u64) | ((root as u64)
        << 56u64)
}

/// The contract bits of a header value.
pub open spec fn header_contract(value: u64) -> u32 {
    (value & 0xffff_ffffu64) as u32
}

/// The revision bits of a header value.
pub open spec fn header_revision(value: u64) -> u16 {
    ((value >> 32u64) & 0xffffu64) as u16
}

/// The route variant bits of a header value.
pub open spec fn header_variant(value: u64) -> u8 {
    ((value >> 48u64) & 0xffu64) as u8
}

/// The route root bits of a header value.
pub open spec fn header_root(value: u64) -> u8 {
    (value >> 56u64) as u8
}

/// A header is bound when neither its contract nor its revision is the
/// reserved zero.
pub open spec fn header_is_bound(value: u64) -> bool {
    header_contract(value) != 0 && header_revision(value) != 0
}

/// Packing and unpacking a header are inverse to one another: each field
/// comes back from a packed value, and a value is the packing of its
/// fields.
pub proof fn lemma_header_pack_unpack(contract: u32, revision: u16, root: u8, variant: u8, value: u64)
    ensures
        header_contract(header_value(contract, revision, root, variant)) == contract,
        header_revision(header_value(contract, revision, root, variant)) == revision,
        header_variant(header_value(contract, revision, root, variant)) == variant,
        header_root(header_value(contract, revision, root, variant)) == root,
        header_value(header_contract(value), header_revision(value), header_root(value), header_variant(value)) == value,
{
    assert(((((contract as u64) | ((revision as u64) << 32u64) | ((variant as u64) << 48u64) | ((root as u64) << 56u64)) & 0xffff_ffffu64) as u32) == contract) by (bit_vector);
    assert((((((contract as u64) | ((revision as u64) << 32u64) | ((variant as u64) << 48u64) | ((root as u64) << 56u64)) >> 32u64) & 0xffffu64) as u16) == revision) by (bit_vector);
    assert((((((contract as u64) | ((revision as u64) << 32u64) | ((variant as u64) << 48u64) | ((root as u64) << 56u64)) >> 48u64) & 0xffu64) as u8) == variant) by (bit_vector);
    assert(((((contract as u64) | ((revision as u64) << 32u64) | ((variant as u64) << 48u64) | ((root as u64) << 56u64)) >> 56u64) as u8) == root) by (bit_vector);
    assert(((((value & 0xffff_ffffu64) as u32) as u64) | (((((value >> 32u64) & 0xffffu64) as u16) as u64) << 32u64) | (((((value >> 48u64) & 0xffu64) as u8) as u64) << 48u64) | ((((value >> 56u64) as u8) as u64) << 56u64)) == value) by (bit_vector);
}

// ---------------------------------------------------------------------
// Byte orders

/// The eight little-endian bytes of a `u64`.
pub open spec fn le_bytes(value: u64) -> Seq<u8> {
    seq![
        (value & 0xffu64) as u8,
        ((value >> 8u64) & 0xffu64) as u8,
        ((value >> 16u64) & 0xffu64) as u8,
        ((value >> 24u64) & 0xffu64) as u8,
        ((value >> 32u64) & 0xffu64) as u8,
        ((value >> 40u64) & 0xffu64) as u8,
        ((value >> 48u64) & 0xffu64) as u8,
        ((value >> 56u64) & 0xffu64) as u8,
    ]
}

/// The `u64` whose little-endian bytes are the first eight of `bytes`.
pub open spec fn from_le_bytes(bytes: Seq<u8>) -> u64 {
    (bytes[0] as u64) | ((bytes[1] as u64) << 8u64) | ((bytes[2] as u64) << 16u64) | ((
    bytes[3] as u64) << 24u64) | ((bytes[4] as u64) << 32u64) | ((bytes[5] as u64) << 40u64) | ((
    bytes[6] as u64) << 48u64) | ((bytes[7] as u64) << 56u64)
}

/// The four big-endian bytes of a `u32`.
pub open spec fn be_bytes(value: u32) -> Seq<u8> {
    seq![
        ((value >> 24u32) & 0xffu32) as u8,
        ((value >> 16u32) & 0xffu32) as u8,
        ((value >> 8u32) & 0xffu32) as u8,
        (value & 0xffu32) as u8,
    ]
}

/// The `u32` whose big-endian bytes are the first four of `bytes`.
pub open spec fn from_be_bytes(bytes: Seq<u8>) -> u32 {
    ((bytes[0] as u32) << 24u32) | ((bytes[1] as u32) << 16u32) | ((bytes[2] as u32) << 8u32) | (
    bytes[3] as u32)
}

/// Reading back the little-endian bytes of a value gives the value, and
/// eight bytes are the little-endian bytes of the value they spell.
pub proof fn lemma_le_bytes_round_trip(value: u64, bytes: Seq<u8>)
    ensures
        le_bytes(value).len() == 8,
        from_le_bytes(le_bytes(value)) == value,
        bytes.len() == 8 ==> le_bytes(from_le_bytes(bytes)) == bytes,
{
    assert(((value & 0xffu64) as u8 as u64) | ((((value >> 8u64) & 0xffu64) as u8 as u64) << 8u64) | ((((value >> 16u64) & 0xffu64) as u8 as u64) << 16u64) | ((((value >> 24u64) & 0xffu64) as u8 as u64) << 24u64) | ((((value >> 32u64) & 0xffu64) as u8 as u64) << 32u64) | ((((value >> 40u64) & 0xffu64) as u8 as u64) << 40u64) | ((((value >> 48u64) & 0xffu64) as u8 as u64) << 48u64) | ((((value >> 56u64) & 0xffu64) as u8 as u64) << 56u64) == value) by (bit_vector);
    if bytes.len() == 8 {
        let b0 = bytes[0];
        let b1 = bytes[1];
        let b2 = bytes[2];
        let b3 = bytes[3];
        let b4 = bytes[4];
        let b5 = bytes[5];
        let b6 = bytes[6];
        let b7 = bytes[7];
        let v = from_le_bytes(bytes);
        assert(v == (b0 as u64) | ((b1 as u64) << 8u64) | ((b2 as u64) << 16u64) | ((b3 as u64) << 24u64) | ((b4 as u64) << 32u64) | ((b5 as u64) << 40u64) | ((b6 as u64) << 48u64) | ((b7 as u64) << 56u64));
        assert({
            &&& (v & 0xffu64) as u8 == b0
            &&& ((v >> 8u64) & 0xffu64) as u8 == b1
            &&& ((v >> 16u64) & 0xffu64) as u8 == b2
            &&& ((v >> 24u64) & 0xffu64) as u8 == b3
            &&& ((v >> 32u64) & 0xffu64) as u8 == b4
            &&& ((v >> 40u64) & 0xffu64) as u8 == b5
            &&& ((v >> 48u64) & 0xffu64) as u8 == b6
            &&& ((v >> 56u64) & 0xffu64) as u8 == b7
        }) by (bit_vector)
            requires
                v == (b0 as u64) | ((b1 as u64) << 8u64) | ((b2 as u64) << 16u64) | ((b3 as u64) << 24u64) | ((b4 as u64) << 32u64) | ((b5 as u64) << 40u64) | ((b6 as u64) << 48u64) | ((b7 as u64) << 56u64),
        ;
        assert(le_bytes(v) =~= bytes);
    }
}

/// Reading back the big-endian bytes of a length gives the length.
pub proof fn lemma_be_bytes_round_trip(value: u32)
    ensures
        be_bytes(value).len() == 4,
        from_be_bytes(be_bytes(value)) == value,
{
    assert(((((value >> 24u32) & 0xffu32) as u8 as u32) << 24u32) | ((((value >> 16u32) & 0xffu32) as u8 as u32) << 16u32) | ((((value >> 8u32) & 0xffu32) as u8 as u32) << 8u32) | ((value & 0xffu32) as u8 as u32) == value) by (bit_vector);
}

// ---------------------------------------------------------------------
// Short header

/// The mandatory 64-bit pre-typed frame prefix.
#[derive(Debug, Clone, Copy, PartialEq, Eq, Hash, Structural)]
pub struct ShortHeader {
    value: u64,
}

impl View for ShortHeader {
    type V = u64;

    closed spec fn view(&self) -> u64 {
        self.value
    }
}

impl ShortHeader {
    /// Two values of this type with the same view are the same value.
    pub proof fn lemma_view_injective(self, other: Self)
        requires
            self@ == other@,
        ensures
            self == other,
    {
    }

    pub fn new(value: u64) -> (header: Self)
        ensures
            header@ == value,
    {
        ShortHeader { value }
    }

    /// The legacy header that carries no binding and no route.
    pub fn empty() -> (header: Self)
        ensures
            header@ == 0,
    {
        ShortHeader { value: 0 }
    }

    pub fn value(self) -> (value: u64)
        ensures
            value == self@,
    {
        self.value
    }

    /// Packs a contract binding and a route.
    pub fn bound(binding: ContractBinding, route: WireRoute) -> (header: Self)
        ensures
            header@ == header_value(binding@.0, binding@.1, route@.0, route@.1),
            header_is_bound(header@),
            header_contract(header@) == binding@.0,
            header_revision(header@) == binding@.1,
            header_root(header@) == route@.0,
            header_variant(header@) == route@.1,
    {
        let contract = binding.contract().value();
        let revision = binding.revision().value();
        let root = route.root().value();
        let variant = route.variant().value();
        proof {
            lemma_header_pack_unpack(contract, revision, root, variant, 0);
        }
        ShortHeader {
            value: (contract as u64) | ((revision as u64) << 32u64) | ((variant as u64) << 48u64)
                | ((root as u64) << 56u64),
        }
    }

    /// The contract binding the header carries, refused when the contract
    /// or the revision is the reserved zero.
    pub fn binding(self) -> (result: Result<ContractBinding, FrameError>)
        ensures
            result is Ok <==> header_is_bound(self@),
            result matches Ok(binding) ==> binding@ == (
                header_contract(self@),
                header_revision(self@),
            ),
            result matches Err(error) ==> error == FrameError::UnboundHeader,
    {
        let contract = (self.value & 0xffff_ffffu64) as u32;
        let revision = ((self.value >> 32u64) & 0xffffu64) as u16;
        if contract == 0 || revision == 0 {
            Err(FrameError::UnboundHeader)
        } else {
            Ok(ContractBinding::new(ContractId::new(contract), WireRevision::new(revision)))
        }
    }

    /// The same header, once it is known to carry a binding; a peeked
    /// header is checked this way before it is used.
    pub fn validate(self) -> (result: Result<ShortHeader, FrameError>)
        ensures
            result is Ok <==> header_is_bound(self@),
            result matches Ok(header) ==> header == self,
            result matches Err(error) ==> error == FrameError::UnboundHeader,
    {
        match self.binding() {
            Ok(_) => Ok(self),
            Err(error) => Err(error),
        }
    }

    /// The route the header carries.
    pub fn route(self) -> (route: WireRoute)
        ensures
            route@ == (header_root(self@), header_variant(self@)),
    {
        let root = (self.value >> 56u64) as u8;
        let variant = ((self.value >> 48u64) & 0xffu64) as u8;
        WireRoute::new(RootCode::new(root), VariantCode::new(variant))
    }

    pub fn to_le_bytes(self) -> (bytes: [u8; 8])
        ensures
            bytes@ == le_bytes(self@),
    {
        let value = self.value;
        let bytes = [
            (value & 0xffu64) as u8,
            ((value >> 8u64) & 0xffu64) as u8,
            ((value >> 16u64) & 0xffu64) as u8,
            ((value >> 24u64) & 0xffu64) as u8,
            ((value >> 32u64) & 0xffu64) as u8,
            ((value >> 40u64) & 0xffu64) as u8,
            ((value >> 48u64) & 0xffu64) as u8,
            ((value >> 56u64) & 0xffu64) as u8,
        ];
        assert(bytes@ =~= le_bytes(value));
        bytes
    }

    pub fn from_le_bytes(bytes: [u8; 8]) -> (header: Self)
        ensures
            header@ == from_le_bytes(bytes@),
    {
        let value = (bytes[0] as u64) | ((bytes[1] as u64) << 8u64) | ((bytes[2] as u64) << 16u64)
            | ((bytes[3] as u64) << 24u64) | ((bytes[4] as u64) << 32u64) | ((bytes[5] as u64)
            << 40u64) | ((bytes[6] as u64) << 48u64) | ((bytes[7] as u64) << 56u64);
        ShortHeader { value }
    }
}

// ---------------------------------------------------------------------
// Byte framing

/// What reading the length prefix off `bytes` gives: the payload after
/// the prefix when the prefix counts exactly the bytes that follow it.
pub open spec fn spec_strip_length_prefix(bytes: Seq<u8>) -> Result<Seq<u8>, FrameError> {
    if bytes.len() < 4 {
        Err(FrameError::ShortLengthPrefix)
    } else if bytes.len() - 4 != from_be_bytes(bytes) as int {
        Err(
            FrameError::LengthMismatch {
                expected: from_be_bytes(bytes) as usize,
                found: (bytes.len() - 4) as usize,
            },
        )
    } else {
        Ok(bytes.subrange(4, bytes.len() as int))
    }
}

/// What prefixing `archive` with its length gives: refused when the
/// length does not fit the four byte prefix.
pub open spec fn spec_length_prefix(archive: Seq<u8>) -> Result<Seq<u8>, FrameError> {
    if archive.len() > u32::MAX {
        Err(
            FrameError::LengthMismatch {
                expected: u32::MAX as usize,
                found: archive.len() as usize,
            },
        )
    } else {
        Ok(be_bytes(archive.len() as u32) + archive)
    }
}

/// What peeking the short header at the start of an archive gives.
pub open spec fn spec_short_header_from_archive(bytes: Seq<u8>) -> Result<u64, FrameError> {
    if bytes.len() < 8 {
        Err(FrameError::ShortHeaderTooShort { found: bytes.len() as usize })
    } else {
        Ok(from_le_bytes(bytes))
    }
}

/// The archive of a frame: the header bytes, then the archived body.
pub open spec fn frame_archive(header: u64, body: Seq<u8>) -> Seq<u8> {
    le_bytes(header) + body
}

/// A byte-slice result seen as a sequence result.
pub open spec fn bytes_result(result: Result<&[u8], FrameError>) -> Result<Seq<u8>, FrameError> {
    match result {
        Ok(bytes) => Ok(bytes@),
        Err(error) => Err(error),
    }
}

/// A byte-vector result seen as a sequence result.
pub open spec fn vec_result(result: Result<Vec<u8>, FrameError>) -> Result<Seq<u8>, FrameError> {
    match result {
        Ok(bytes) => Ok(bytes@),
        Err(error) => Err(error),
    }
}

/// A header result seen as a value result.
pub open spec fn header_result(result: Result<ShortHeader, FrameError>) -> Result<u64, FrameError> {
    match result {
        Ok(header) => Ok(header@),
        Err(error) => Err(error),
    }
}

/// Prefixes an archive with its big-endian `u32` length.
pub fn length_prefix(archive: Vec<u8>) -> (result: Result<Vec<u8>, FrameError>)
    ensures
        vec_result(result) == spec_length_prefix(archive@),
{
    let length = archive.len();
    if length > u32::MAX as usize {
        return Err(FrameError::LengthMismatch { expected: u32::MAX as usize, found: length });
    }
    let length = length as u32;
    let mut framed: Vec<u8> = Vec::new();
    framed.push(((length >> 24u32) & 0xffu32) as u8);
    framed.push(((length >> 16u32) & 0xffu32) as u8);
    framed.push(((length >> 8u32) & 0xffu32) as u8);
    framed.push((length & 0xffu32) as u8);
    assert(framed@ =~= be_bytes(length));
    let mut archive = archive;
    framed.append(&mut archive);
    Ok(framed)
}

/// Reads the length prefix off a frame and returns the payload after it,
/// refused unless the prefix counts exactly the bytes that follow.
pub fn strip_length_prefix(bytes: &[u8]) -> (result: Result<&[u8], FrameError>)
    ensures
        bytes_result(result) == spec_strip_length_prefix(bytes@),
{
    if bytes.len() < 4 {
        return Err(FrameError::ShortLengthPrefix);
    }
    let expected = (((bytes[0] as u32) << 24u32) | ((bytes[1] as u32) << 16u32) | ((
    bytes[2] as u32) << 8u32) | (bytes[3] as u32)) as usize;
    let payload = slice_subrange(bytes, 4, bytes.len());
    if payload.len() != expected {
        return Err(FrameError::LengthMismatch { expected, found: payload.len() });
    }
    Ok(payload)
}

/// Peeks the short header at the start of an archive.
pub fn short_header_from_archive(bytes: &[u8]) -> (result: Result<ShortHeader, FrameError>)
    ensures
        header_result(result) == spec_short_header_from_archive(bytes@),
{
    if bytes.len() < SHORT_HEADER_BYTE_COUNT {
        return Err(FrameError::ShortHeaderTooShort { found: bytes.len() });
    }
    let header_bytes = [
        bytes[0],
        bytes[1],
        bytes[2],
        bytes[3],
        bytes[4],
        bytes[5],
        bytes[6],
        bytes[7],
    ];
    Ok(ShortHeader::from_le_bytes(header_bytes))
}

/// Peeks the short header of a length-prefixed frame.
pub fn short_header_from_length_prefixed(bytes: &[u8]) -> (result: Result<ShortHeader, FrameError>)
    ensures
        header_result(result) == match spec_strip_length_prefix(bytes@) {
            Ok(payload) => spec_short_header_from_archive(payload),
            Err(error) => Err(error),
        },
{
    let payload = strip_length_prefix(bytes)?;
    short_header_from_archive(payload)
}

/// Splits an archive into its short header and the archived body after it.
pub fn strip_short_header(bytes: &[u8]) -> (result: Result<(ShortHeader, &[u8]), FrameError>)
    ensures
        bytes@.len() < 8 ==> result == Err::<(ShortHeader, &[u8]), FrameError>(
            FrameError::ShortHeaderTooShort { found: bytes@.len() as usize },
        ),
        bytes@.len() >= 8 ==> (result matches Ok((header, body)) && header@ == from_le_bytes(bytes@)
            && body@ == bytes@.subrange(8, bytes@.len() as int)),
{
    let short_header = short_header_from_archive(bytes)?;
    Ok((short_header, slice_subrange(bytes, SHORT_HEADER_BYTE_COUNT, bytes.len())))
}

/// Writes the archive of a frame: the header bytes, then the archived body.
pub fn encode_frame_archive(short_header: ShortHeader, body: &[u8]) -> (archive: Vec<u8>)
    ensures
        archive@ == frame_archive(short_header@, body@),
{
    let header_bytes = short_header.to_le_bytes();
    let mut archive: Vec<u8> = Vec::new();
    let mut index: usize = 0;
    while index < SHORT_HEADER_BYTE_COUNT
        invariant
            index <= 8,
            header_bytes@.len() == 8,
            archive@ == header_bytes@.subrange(0, index as int),
        decreases 8 - index,
    {
        archive.push(header_bytes[index]);
        index += 1;
        assert(archive@ =~= header_bytes@.subrange(0, index as int));
    }
    let mut index: usize = 0;
    while index < body.len()
        invariant
            index <= body@.len(),
            archive@ == header_bytes@ + body@.subrange(0, index as int),
        decreases body@.len() - index,
    {
        archive.push(body[index]);
        index += 1;
        assert(archive@ =~= header_bytes@ + body@.subrange(0, index as int));
    }
    assert(body@.subrange(0, body@.len() as int) =~= body@);
    archive
}

/// Reading the length prefix off a prefixed archive gives the archive
/// back, and peeking a frame archive gives the header it was written with
/// and the body after it.
pub proof fn lemma_framing_round_trip(archive: Seq<u8>, header: u64, body: Seq<u8>)
    requires
        archive.len() <= u32::MAX,
    ensures
        spec_length_prefix(archive) matches Ok(framed) && spec_strip_length_prefix(framed) == Ok::<Seq<u8>, FrameError>(archive),
        spec_short_header_from_archive(frame_archive(header, body)) == Ok::<u64, FrameError>(header),
        frame_archive(header, body).subrange(8, frame_archive(header, body).len() as int) == body,
{
    lemma_be_bytes_round_trip(archive.len() as u32);
    let framed = be_bytes(archive.len() as u32) + archive;
    assert(framed.subrange(0, 4) =~= be_bytes(archive.len() as u32));
    assert(from_be_bytes(framed) == from_be_bytes(be_bytes(archive.len() as u32)));
    assert(framed.subrange(4, framed.len() as int) =~= archive);
    lemma_le_bytes_round_trip(header, body);
    let whole = frame_archive(header, body);
    assert(from_le_bytes(whole) == from_le_bytes(le_bytes(header)));
    assert(whole.subrange(8, whole.len() as int) =~= body);
}

/// Distinct bindings or routes pack into distinct headers.
pub proof fn lemma_header_value_injective(
    first: (u32, u16, u8, u8),
    second: (u32, u16, u8, u8),
)
    ensures
        header_value(first.0, first.1, first.2, first.3) == header_value(second.0, second.1, second.2, second.3) ==> first == second,
{
    lemma_header_pack_unpack(first.0, first.1, first.2, first.3, 0);
    lemma_header_pack_unpack(second.0, second.1, second.2, second.3, 0);
}

/// Two frame archives of the same body differ only in their header
/// bytes: the body after the header is the same whatever the binding.
pub proof fn lemma_binding_changes_only_the_header(first: u64, second: u64, body: Seq<u8>)
    ensures
        frame_archive(first, body).len() == frame_archive(second, body).len(),
        frame_archive(first, body).subrange(8, frame_archive(first, body).len() as int)
            == frame_archive(second, body).subrange(8, frame_archive(second, body).len() as int),
        frame_archive(first, body).subrange(0, 8) == le_bytes(first),
{
    lemma_le_bytes_round_trip(first, body);
    lemma_le_bytes_round_trip(second, body);
    assert(frame_archive(first, body).subrange(8, frame_archive(first, body).len() as int) =~= body);
    assert(frame_archive(second, body).subrange(8, frame_archive(second, body).len() as int) =~= body);
    assert(frame_archive(first, body).subrange(0, 8) =~= le_bytes(first));
}

/// A header packed from a binding and a route is accepted by that binding
/// and by no other, and the empty header is accepted by none.
pub proof fn lemma_binding_accepts_only_its_own_headers(
    binding: (u32, u16),
    other: (u32, u16),
    root: u8,
    variant: u8,
)
    requires
        binding.0 != 0,
        binding.1 != 0,
    ensures
        binding_accepts(binding, header_value(binding.0, binding.1, root, variant)),
        other != binding ==> !binding_accepts(other, header_value(binding.0, binding.1, root, variant)),
        !binding_accepts(other, 0),
{
    lemma_header_pack_unpack(binding.0, binding.1, root, variant, 0);
    assert(header_contract(0) == 0) by (bit_vector);
}

/// What a binding writes, it reads back: the archive of a frame whose
/// header packs the binding and a route passes that binding's validation
/// and gives back the archived body, with or without the length prefix.
pub proof fn lemma_bound_archive_round_trip(binding: ContractBinding, route: (u8, u8), body: Seq<u8>)
    requires
        binding@.0 != 0,
        binding@.1 != 0,
    ensures
        ({
            let header = header_value(binding@.0, binding@.1, route.0, route.1);
            let archive = frame_archive(header, body);
            &&& archive.len() >= 8
            &&& from_le_bytes(archive) == header
            &&& archive_validation(binding, from_le_bytes(archive), Ok::<Seq<u8>, FrameError>(body))
            &&& archive.subrange(8, archive.len() as int) == body
            &&& archive.len() <= u32::MAX ==> (spec_length_prefix(archive) matches Ok(framed)
                && spec_strip_length_prefix(framed) == Ok::<Seq<u8>, FrameError>(archive))
        }),
{
    let header = header_value(binding@.0, binding@.1, route.0, route.1);
    lemma_binding_accepts_only_its_own_headers(binding@, binding@, route.0, route.1);
    lemma_le_bytes_round_trip(header, body);
    let archive = frame_archive(header, body);
    assert(archive.subrange(0, 8) =~= le_bytes(header));
    assert(from_le_bytes(archive) == from_le_bytes(le_bytes(header)));
    assert(archive.subrange(8, archive.len() as int) =~= body);
    if archive.len() <= u32::MAX {
        lemma_framing_round_trip(archive, header, body);
    }
}

// ---------------------------------------------------------------------
// Frames

/// Frame body of an exchange-only channel: handshake and request/reply.
#[derive(Debug, Clone, PartialEq, Eq)]
pub enum ExchangeFrameBody<RequestPayload, ReplyPayload> {
    HandshakeRequest(HandshakeRequest),
    HandshakeReply(HandshakeReply),
    Request { exchange: ExchangeIdentifier, request: Request<RequestPayload> },
    Reply { exchange: ExchangeIdentifier, reply: Reply<ReplyPayload> },
}

/// Frame body of a streaming channel: adds daemon-initiated subscription
/// events, whose payload type is distinct from reply payloads.
#[derive(Debug, Clone, PartialEq, Eq)]
pub enum StreamingFrameBody<RequestPayload, ReplyPayload, EventPayload> {
    HandshakeRequest(HandshakeRequest),
    HandshakeReply(HandshakeReply),
    Request { exchange: ExchangeIdentifier, request: Request<RequestPayload> },
    Reply { exchange: ExchangeIdentifier, reply: Reply<ReplyPayload> },
    /// Daemon-initiated subscription event on the acceptor's lane.
    SubscriptionEvent {
        event_identifier: StreamEventIdentifier,
        token: SubscriptionTokenInner,
        event: EventPayload,
    },
}

/// A frame of an exchange-only channel: a short header and a body.
#[derive(Debug, Clone, PartialEq, Eq)]
pub struct ExchangeFrame<RequestPayload, ReplyPayload> {
    pub short_header: ShortHeader,
    pub body: ExchangeFrameBody<RequestPayload, ReplyPayload>,
}

/// A frame of a streaming channel: a short header and a body.
#[derive(Debug, Clone, PartialEq, Eq)]
pub struct StreamingFrame<RequestPayload, ReplyPayload, EventPayload> {
    pub short_header: ShortHeader,
    pub body: StreamingFrameBody<RequestPayload, ReplyPayload, EventPayload>,
}

/// The result of splitting a length-prefixed frame: its short header and
/// its archived body.
pub open spec fn spec_split_length_prefixed(bytes: Seq<u8>) -> Result<(u64, Seq<u8>), FrameError> {
    match spec_strip_length_prefix(bytes) {
        Err(error) => Err(error),
        Ok(archive) => if archive.len() < 8 {
            Err(FrameError::ShortHeaderTooShort { found: archive.len() as usize })
        } else {
            Ok((from_le_bytes(archive), archive.subrange(8, archive.len() as int)))
        },
    }
}

/// A split result seen as values.
pub open spec fn split_result(result: Result<(ShortHeader, &[u8]), FrameError>) -> Result<(u64, Seq<u8>), FrameError> {
    match result {
        Ok((header, body)) => Ok((header@, body@)),
        Err(error) => Err(error),
    }
}

/// Splits a length-prefixed frame into its short header and archived
/// body.
pub fn split_length_prefixed(bytes: &[u8]) -> (result: Result<(ShortHeader, &[u8]), FrameError>)
    ensures
        split_result(result) == spec_split_length_prefixed(bytes@),
{
    let archive = strip_length_prefix(bytes)?;
    strip_short_header(archive)
}

impl<RequestPayload, ReplyPayload> ExchangeFrame<RequestPayload, ReplyPayload> {
    /// A frame with the empty legacy header.
    pub fn new(body: ExchangeFrameBody<RequestPayload, ReplyPayload>) -> (frame: Self)
        ensures
            frame.short_header@ == 0,
            frame.body == body,
    {
        Self::with_short_header(ShortHeader::empty(), body)
    }

    pub fn with_short_header(
        short_header: ShortHeader,
        body: ExchangeFrameBody<RequestPayload, ReplyPayload>,
    ) -> (frame: Self)
        ensures
            frame.short_header == short_header,
            frame.body == body,
    {
        ExchangeFrame { short_header, body }
    }

    /// A frame whose header binds it to `binding` at `route`.
    pub fn bound(
        binding: ContractBinding,
        route: WireRoute,
        body: ExchangeFrameBody<RequestPayload, ReplyPayload>,
    ) -> (frame: Self)
        ensures
            frame.short_header@ == header_value(binding@.0, binding@.1, route@.0, route@.1),
            header_is_bound(frame.short_header@),
            header_contract(frame.short_header@) == binding@.0,
            header_revision(frame.short_header@) == binding@.1,
            header_root(frame.short_header@) == route@.0,
            header_variant(frame.short_header@) == route@.1,
            frame.body == body,
    {
        Self::with_short_header(ShortHeader::bound(binding, route), body)
    }

    pub fn short_header(&self) -> (short_header: ShortHeader)
        ensures
            short_header == self.short_header,
    {
        self.short_header
    }

    pub fn body(&self) -> (body: &ExchangeFrameBody<RequestPayload, ReplyPayload>)
        ensures
            *body == self.body,
    {
        &self.body
    }

    pub fn into_body(self) -> (body: ExchangeFrameBody<RequestPayload, ReplyPayload>)
        ensures
            body == self.body,
    {
        self.body
    }

    /// The archive of this frame, given the archive of its body.
    pub fn encode(&self, body_archive: &[u8]) -> (archive: Vec<u8>)
        ensures
            archive@ == frame_archive(self.short_header@, body_archive@),
    {
        encode_frame_archive(self.short_header, body_archive)
    }

    /// The length-prefixed archive of this frame, given the archive of its
    /// body.
    pub fn encode_length_prefixed(&self, body_archive: &[u8]) -> (result: Result<Vec<u8>, FrameError>)
        ensures
            vec_result(result) == spec_length_prefix(frame_archive(self.short_header@, body_archive@)),
    {
        length_prefix(self.encode(body_archive))
    }

    /// Splits a length-prefixed frame of this shape into its short header
    /// and the archive of its body.
    pub fn decode_length_prefixed(bytes: &[u8]) -> (result: Result<(ShortHeader, &[u8]), FrameError>)
        ensures
            split_result(result) == spec_split_length_prefixed(bytes@),
    {
        split_length_prefixed(bytes)
    }
}

impl<RequestPayload, ReplyPayload, EventPayload> StreamingFrame<
    RequestPayload,
    ReplyPayload,
    EventPayload,
> {
    /// A frame with the empty legacy header.
    pub fn new(body: StreamingFrameBody<RequestPayload, ReplyPayload, EventPayload>) -> (frame: Self)
        ensures
            frame.short_header@ == 0,
            frame.body == body,
    {
        Self::with_short_header(ShortHeader::empty(), body)
    }

    pub fn with_short_header(
        short_header: ShortHeader,
        body: StreamingFrameBody<RequestPayload, ReplyPayload, EventPayload>,
    ) -> (frame: Self)
        ensures
            frame.short_header == short_header,
            frame.body == body,
    {
        StreamingFrame { short_header, body }
    }

    /// A frame whose header binds it to `binding` at `route`.
    pub fn bound(
        binding: ContractBinding,
        route: WireRoute,
        body: StreamingFrameBody<RequestPayload, ReplyPayload, EventPayload>,
    ) -> (frame: Self)
        ensures
            frame.short_header@ == header_value(binding@.0, binding@.1, route@.0, route@.1),
            header_is_bound(frame.short_header@),
            header_contract(frame.short_header@) == binding@.0,
            header_revision(frame.short_header@) == binding@.1,
            header_root(frame.short_header@) == route@.0,
            header_variant(frame.short_header@) == route@.1,
            frame.body == body,
    {
        Self::with_short_header(ShortHeader::bound(binding, route), body)
    }

    pub fn short_header(&self) -> (short_header: ShortHeader)
        ensures
            short_header == self.short_header,
    {
        self.short_header
    }

    pub fn body(&self) -> (body: &StreamingFrameBody<RequestPayload, ReplyPayload, EventPayload>)
        ensures
            *body == self.body,
    {
        &self.body
    }

    pub fn into_body(self) -> (body: StreamingFrameBody<RequestPayload, ReplyPayload, EventPayload>)
        ensures
            body == self.body,
    {
        self.body
    }

    /// The archive of this frame, given the archive of its body.
    pub fn encode(&self, body_archive: &[u8]) -> (archive: Vec<u8>)
        ensures
            archive@ == frame_archive(self.short_header@, body_archive@),
    {
        encode_frame_archive(self.short_header, body_archive)
    }

    /// The length-prefixed archive of this frame, given the archive of its
    /// body.
    pub fn encode_length_prefixed(&self, body_archive: &[u8]) -> (result: Result<Vec<u8>, FrameError>)
        ensures
            vec_result(result) == spec_length_prefix(frame_archive(self.short_header@, body_archive@)),
    {
        length_prefix(self.encode(body_archive))
    }

    /// Splits a length-prefixed frame of this shape into its short header
    /// and the archive of its body.
    pub fn decode_length_prefixed(bytes: &[u8]) -> (result: Result<(ShortHeader, &[u8]), FrameError>)
        ensures
            split_result(result) == spec_split_length_prefixed(bytes@),
    {
        split_length_prefixed(bytes)
    }
}

/// An exchange frame bound to one contract: its header always carries
/// the contract's binding.
pub struct BoundExchangeFrame<Contract, RequestPayload, ReplyPayload> {
    frame: ExchangeFrame<RequestPayload, ReplyPayload>,
    contract: PhantomData<Contract>,
}

impl<Contract, RequestPayload, ReplyPayload> BoundExchangeFrame<
    Contract,
    RequestPayload,
    ReplyPayload,
> where Contract: WireContract {
    /// The unbound frame inside.
    pub closed spec fn frame(self) -> ExchangeFrame<RequestPayload, ReplyPayload> {
        self.frame
    }

    /// A frame bound to the contract at `route`.
    pub fn new(route: WireRoute, body: ExchangeFrameBody<RequestPayload, ReplyPayload>) -> (frame: Self)
        ensures
            frame.frame().short_header@ == header_value(
                Contract::spec_binding()@.0,
                Contract::spec_binding()@.1,
                route@.0,
                route@.1,
            ),
            header_is_bound(frame.frame().short_header@),
            header_contract(frame.frame().short_header@) == Contract::spec_binding()@.0,
            header_revision(frame.frame().short_header@) == Contract::spec_binding()@.1,
            header_root(frame.frame().short_header@) == route@.0,
            header_variant(frame.frame().short_header@) == route@.1,
            frame.frame().body == body,
    {
        let binding = Contract::binding();
        let frame = BoundExchangeFrame {
            frame: ExchangeFrame::bound(binding, route, body),
            contract: PhantomData,
        };
        frame
    }

    pub fn short_header(&self) -> (short_header: ShortHeader)
        ensures
            short_header == self.frame().short_header,
    {
        self.frame.short_header
    }

    pub fn body(&self) -> (body: &ExchangeFrameBody<RequestPayload, ReplyPayload>)
        ensures
            *body == self.frame().body,
    {
        &self.frame.body
    }

    pub fn into_body(self) -> (body: ExchangeFrameBody<RequestPayload, ReplyPayload>)
        ensures
            body == self.frame().body,
    {
        self.frame.body
    }

    /// The archive of this frame, given the archive of its body.
    pub fn encode(&self, body_archive: &[u8]) -> (archive: Vec<u8>)
        ensures
            archive@ == frame_archive(self.frame().short_header@, body_archive@),
    {
        self.frame.encode(body_archive)
    }

    /// The length-prefixed archive of this frame, given the archive of its
    /// body.
    pub fn encode_length_prefixed(&self, body_archive: &[u8]) -> (result: Result<Vec<u8>, FrameError>)
        ensures
            vec_result(result) == spec_length_prefix(frame_archive(self.frame().short_header@, body_archive@)),
    {
        self.frame.encode_length_prefixed(body_archive)
    }

    /// Splits an archive of a frame of this contract into its header and
    /// the archive of its body, refusing a header of another binding before
    /// the body is looked at.
    pub fn decode(bytes: &[u8]) -> (result: Result<(ShortHeader, &[u8]), FrameError>)
        ensures
            bytes@.len() < 8 ==> result == Err::<(ShortHeader, &[u8]), FrameError>(
                FrameError::ShortHeaderTooShort { found: bytes@.len() as usize },
            ),
            bytes@.len() >= 8 ==> crate::binding::archive_validation(Contract::spec_binding(), from_le_bytes(bytes@), result),
            result matches Ok((header, body)) ==> header@ == from_le_bytes(bytes@) && body@ == bytes@.subrange(8, bytes@.len() as int),
    {
        let (header, body) = strip_short_header(bytes)?;
        let binding = Contract::binding();
        let result: Result<(ShortHeader, &[u8]), FrameError> = match binding.validate_header(header) {
            Ok(()) => Ok((header, body)),
            Err(error) => Err(error),
        };
        result
    }

    /// Reads the length prefix off a frame, then splits and validates the
    /// archive after it as [`BoundExchangeFrame::decode`] does.
    pub fn decode_length_prefixed(bytes: &[u8]) -> (result: Result<(ShortHeader, &[u8]), FrameError>)
        ensures
            spec_strip_length_prefix(bytes@) matches Err(error) ==> result == Err::<(ShortHeader, &[u8]), FrameError>(error),
            spec_strip_length_prefix(bytes@) matches Ok(archive) ==> {
                &&& archive.len() < 8 ==> result == Err::<(ShortHeader, &[u8]), FrameError>(
                    FrameError::ShortHeaderTooShort { found: archive.len() as usize },
                )
                &&& archive.len() >= 8 ==> crate::binding::archive_validation(Contract::spec_binding(), from_le_bytes(archive), result)
                &&& result matches Ok((header, body)) ==> header@ == from_le_bytes(archive) && body@ == archive.subrange(8, archive.len() as int)
            },
    {
        let archive = strip_length_prefix(bytes)?;
        Self::decode(archive)
    }
}

/// A streaming frame bound to one contract: its header always carries
/// the contract's binding.
pub struct BoundStreamingFrame<Contract, RequestPayload, ReplyPayload, EventPayload> {
    frame: StreamingFrame<RequestPayload, ReplyPayload, EventPayload>,
    contract: PhantomData<Contract>,
}

impl<Contract, RequestPayload, ReplyPayload, EventPayload> BoundStreamingFrame<
    Contract,
    RequestPayload,
    ReplyPayload,
    EventPayload,
> where Contract: WireContract {
    /// The unbound frame inside.
    pub closed spec fn frame(self) -> StreamingFrame<RequestPayload, ReplyPayload, EventPayload> {
        self.frame
    }

    /// A frame bound to the contract at `route`.
    pub fn new(route: WireRoute, body: StreamingFrameBody<RequestPayload, ReplyPayload, EventPayload>) -> (frame: Self)
        ensures
            frame.frame().short_header@ == header_value(
                Contract::spec_binding()@.0,
                Contract::spec_binding()@.1,
                route@.0,
                route@.1,
            ),
            header_is_bound(frame.frame().short_header@),
            header_contract(frame.frame().short_header@) == Contract::spec_binding()@.0,
            header_revision(frame.frame().short_header@) == Contract::spec_binding()@.1,
            header_root(frame.frame().short_header@) == route@.0,
            header_variant(frame.frame().short_header@) == route@.1,
            frame.frame().body == body,
    {
        let binding = Contract::binding();
        let frame = BoundStreamingFrame {
            frame: StreamingFrame::bound(binding, route, body),
            contract: PhantomData,
        };
        frame
    }

    pub fn short_header(&self) -> (short_header: ShortHeader)
        ensures
            short_header == self.frame().short_header,
    {
        self.frame.short_header
    }

    pub fn body(&self) -> (body: &StreamingFrameBody<RequestPayload, ReplyPayload, EventPayload>)
        ensures
            *body == self.frame().body,
    {
        &self.frame.body
    }

    pub fn into_body(self) -> (body: StreamingFrameBody<RequestPayload, ReplyPayload, EventPayload>)
        ensures
            body == self.frame().body,
    {
        self.frame.body
    }

    /// The archive of this frame, given the archive of its body.
    pub fn encode(&self, body_archive: &[u8]) -> (archive: Vec<u8>)
        ensures
            archive@ == frame_archive(self.frame().short_header@, body_archive@),
    {
        self.frame.encode(body_archive)
    }

    /// The length-prefixed archive of this frame, given the archive of its
    /// body.
    pub fn encode_length_prefixed(&self, body_archive: &[u8]) -> (result: Result<Vec<u8>, FrameError>)
        ensures
            vec_result(result) == spec_length_prefix(frame_archive(self.frame().short_header@, body_archive@)),
    {
        self.frame.encode_length_prefixed(body_archive)
    }

    /// Splits an archive of a frame of this contract into its header and
    /// the archive of its body, refusing a header of another binding before
    /// the body is looked at.
    pub fn decode(bytes: &[u8]) -> (result: Result<(ShortHeader, &[u8]), FrameError>)
        ensures
            bytes@.len() < 8 ==> result == Err::<(ShortHeader, &[u8]), FrameError>(
                FrameError::ShortHeaderTooShort { found: bytes@.len() as usize },
            ),
            bytes@.len() >= 8 ==> crate::binding::archive_validation(Contract::spec_binding(), from_le_bytes(bytes@), result),
            result matches Ok((header, body)) ==> header@ == from_le_bytes(bytes@) && body@ == bytes@.subrange(8, bytes@.len() as int),
    {
        let (header, body) = strip_short_header(bytes)?;
        let binding = Contract::binding();
        let result: Result<(ShortHeader, &[u8]), FrameError> = match binding.validate_header(header) {
            Ok(()) => Ok((header, body)),
            Err(error) => Err(error),
        };
        result
    }

    /// Reads the length prefix off a frame, then splits and validates the
    /// archive after it as [`BoundStreamingFrame::decode`] does.
    pub fn decode_length_prefixed(bytes: &[u8]) -> (result: Result<(ShortHeader, &[u8]), FrameError>)
        ensures
            spec_strip_length_prefix(bytes@) matches Err(error) ==> result == Err::<(ShortHeader, &[u8]), FrameError>(error),
            spec_strip_length_prefix(bytes@) matches Ok(archive) ==> {
                &&& archive.len() < 8 ==> result == Err::<(ShortHeader, &[u8]), FrameError>(
                    FrameError::ShortHeaderTooShort { found: archive.len() as usize },
                )
                &&& archive.len() >= 8 ==> crate::binding::archive_validation(Contract::spec_binding(), from_le_bytes(archive), result)
                &&& result matches Ok((header, body)) ==> header@ == from_le_bytes(archive) && body@ == archive.subrange(8, archive.len() as int)
            },
    {
        let archive = strip_length_prefix(bytes)?;
        Self::decode(archive)
    }
}

} // verus!
