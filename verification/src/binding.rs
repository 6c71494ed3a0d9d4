//! Contract identity, wire revision and the contract-local route that a
//! short header carries.

use std::cmp::Ordering;

use vstd::prelude::*;
use vstd::std_specs::cmp::PartialOrdSpecImpl;

use crate::error::FrameError;
use crate::frame::{
    from_le_bytes, header_contract, header_is_bound, header_revision, short_header_from_archive,
    strip_length_prefix, spec_strip_length_prefix, ShortHeader,
};
use vstd::slice::slice_subrange;

verus! {

/// Stable numeric identity allocated to one wire contract.
///
/// Zero is reserved for legacy frames that carry no contract binding;
/// every value of this type is nonzero.
#[derive(Debug, Clone, Copy, PartialEq, Eq, Ord, Hash, Structural)]
pub struct ContractId {
    value: u32,
}

/// Ordered by value.
impl PartialOrd for ContractId {
    fn partial_cmp(&self, other: &Self) -> (order: Option<Ordering>) {
        if self.value < other.value {
            Some(Ordering::Less)
        } else if self.value == other.value {
            Some(Ordering::Equal)
        } else {
            Some(Ordering::Greater)
        }
    }
}

impl PartialOrdSpecImpl for ContractId {
    open spec fn obeys_partial_cmp_spec() -> bool {
        true
    }

    open spec fn partial_cmp_spec(&self, other: &Self) -> Option<Ordering> {
        if self@ < other@ {
            Some(Ordering::Less)
        } else if self@ == other@ {
            Some(Ordering::Equal)
        } else {
            Some(Ordering::Greater)
        }
    }
}

impl View for ContractId {
    type V = u32;

    closed spec fn view(&self) -> u32 {
        self.value
    }
}

impl ContractId {
    /// Two values of this type with the same view are the same value.
    pub proof fn lemma_view_injective(self, other: Self)
        requires
            self@ == other@,
        ensures
            self == other,
    {
    }

    #[verifier::type_invariant]
    spec fn nonzero(self) -> bool {
        self.value != 0
    }

    /// Builds a contract identity from a nonzero value.
    pub fn new(value: u32) -> (id: Self)
        requires
            value != 0,
        ensures
            id@ == value,
    {
        ContractId { value }
    }

    /// Builds a contract identity, refusing the reserved value zero.
    pub fn try_new(value: u32) -> (result: Result<Self, BindingIdentifierError>)
        ensures
            value != 0 <==> result is Ok,
            result matches Ok(id) ==> id@ == value,
            result matches Err(error) ==> error == BindingIdentifierError::ReservedLegacyContractId,
    {
        if value == 0 {
            Err(BindingIdentifierError::ReservedLegacyContractId)
        } else {
            Ok(ContractId { value })
        }
    }

    pub fn value(self) -> (value: u32)
        ensures
            value == self@,
            value != 0,
    {
        proof {
            use_type_invariant(&self);
        }
        self.value
    }
}

/// Contract-local revision of the archived wire body.
///
/// Zero is reserved for legacy frames; every value of this type is
/// nonzero.
#[derive(Debug, Clone, Copy, PartialEq, Eq, Ord, Hash, Structural)]
pub struct WireRevision {
    value: u16,
}

/// Ordered by value.
impl PartialOrd for WireRevision {
    fn partial_cmp(&self, other: &Self) -> (order: Option<Ordering>) {
        if self.value < other.value {
            Some(Ordering::Less)
        } else if self.value == other.value {
            Some(Ordering::Equal)
        } else {
            Some(Ordering::Greater)
        }
    }
}

impl PartialOrdSpecImpl for WireRevision {
    open spec fn obeys_partial_cmp_spec() -> bool {
        true
    }

    open spec fn partial_cmp_spec(&self, other: &Self) -> Option<Ordering> {
        if self@ < other@ {
            Some(Ordering::Less)
        } else if self@ == other@ {
            Some(Ordering::Equal)
        } else {
            Some(Ordering::Greater)
        }
    }
}

impl View for WireRevision {
    type V = u16;

    closed spec fn view(&self) -> u16 {
        self.value
    }
}

impl WireRevision {
    /// Two values of this type with the same view are the same value.
    pub proof fn lemma_view_injective(self, other: Self)
        requires
            self@ == other@,
        ensures
            self == other,
    {
    }

    #[verifier::type_invariant]
    spec fn nonzero(self) -> bool {
        self.value != 0
    }

    /// Builds a wire revision from a nonzero value.
    pub fn new(value: u16) -> (revision: Self)
        requires
            value != 0,
        ensures
            revision@ == value,
    {
        WireRevision { value }
    }

    /// Builds a wire revision, refusing the reserved value zero.
    pub fn try_new(value: u16) -> (result: Result<Self, BindingIdentifierError>)
        ensures
            value != 0 <==> result is Ok,
            result matches Ok(revision) ==> revision@ == value,
            result matches Err(error) ==> error
                == BindingIdentifierError::ReservedLegacyWireRevision,
    {
        if value == 0 {
            Err(BindingIdentifierError::ReservedLegacyWireRevision)
        } else {
            Ok(WireRevision { value })
        }
    }

    pub fn value(self) -> (value: u16)
        ensures
            value == self@,
            value != 0,
    {
        proof {
            use_type_invariant(&self);
        }
        self.value
    }
}

/// Contract identity paired with the exact archived-body revision it
/// accepts.
#[derive(Debug, Clone, Copy, PartialEq, Eq, PartialOrd, Ord, Hash, Structural)]
pub struct ContractBinding {
    contract: ContractId,
    revision: WireRevision,
}

impl View for ContractBinding {
    type V = (u32, u16);

    closed spec fn view(&self) -> (u32, u16) {
        (self.contract@, self.revision@)
    }
}

impl ContractBinding {
    /// Two values of this type with the same view are the same value.
    pub proof fn lemma_view_injective(self, other: Self)
        requires
            self@ == other@,
        ensures
            self == other,
    {
    }

    /// The contract identity of this binding.
    pub closed spec fn spec_contract(self) -> ContractId {
        self.contract
    }

    /// The wire revision of this binding.
    pub closed spec fn spec_revision(self) -> WireRevision {
        self.revision
    }

    pub fn new(contract: ContractId, revision: WireRevision) -> (binding: Self)
        ensures
            binding.spec_contract() == contract,
            binding.spec_revision() == revision,
            binding@ == (contract@, revision@),
    {
        ContractBinding { contract, revision }
    }

    pub fn contract(self) -> (contract: ContractId)
        ensures
            contract == self.spec_contract(),
            contract@ == self@.0,
    {
        self.contract
    }

    pub fn revision(self) -> (revision: WireRevision)
        ensures
            revision == self.spec_revision(),
            revision@ == self@.1,
    {
        self.revision
    }

    /// Accepts a header that carries exactly this binding; refuses an
    /// unbound header, then one of another contract, then one of another
    /// revision of this contract.
    pub fn validate_header(self, header: ShortHeader) -> (result: Result<(), FrameError>)
        ensures
            result is Ok <==> binding_accepts(self@, header@),
            !header_is_bound(header@) ==> result == Err::<(), FrameError>(FrameError::UnboundHeader),
            header_is_bound(header@) && header_contract(header@) != self@.0 ==> (result matches Err(
                FrameError::ContractMismatch { expected, found },
            ) && expected == self.spec_contract() && found@ == header_contract(header@)),
            header_is_bound(header@) && header_contract(header@) == self@.0 && header_revision(
                header@,
            ) != self@.1 ==> (result matches Err(
                FrameError::UnsupportedWireRevision { contract, expected, found },
            ) && contract == self.spec_contract() && expected == self.spec_revision() && found@
                == header_revision(header@)),
    {
        let found = header.binding()?;
        if found.contract.value() != self.contract.value() {
            return Err(
                FrameError::ContractMismatch { expected: self.contract, found: found.contract },
            );
        }
        if found.revision.value() != self.revision.value() {
            return Err(
                FrameError::UnsupportedWireRevision {
                    contract: self.contract,
                    expected: self.revision,
                    found: found.revision,
                },
            );
        }
        Ok(())
    }

    /// Splits a frame archive into header and archived body, refusing it
    /// before the body is looked at unless the header carries exactly this
    /// binding.
    pub fn validate_archive(self, bytes: &[u8]) -> (result: Result<&[u8], FrameError>)
        ensures
            bytes@.len() < 8 ==> result == Err::<&[u8], FrameError>(
                FrameError::ShortHeaderTooShort { found: bytes@.len() as usize },
            ),
            bytes@.len() >= 8 ==> archive_validation(self, from_le_bytes(bytes@), result),
            result matches Ok(body) ==> body@ == bytes@.subrange(8, bytes@.len() as int),
    {
        let header = short_header_from_archive(bytes)?;
        self.validate_header(header)?;
        Ok(slice_subrange(bytes, 8, bytes.len()))
    }

    /// Reads the length prefix off a frame, then validates the archive
    /// after it as [`ContractBinding::validate_archive`] does.
    pub fn validate_length_prefixed(self, bytes: &[u8]) -> (result: Result<&[u8], FrameError>)
        ensures
            spec_strip_length_prefix(bytes@) matches Err(error) ==> result == Err::<&[u8], FrameError>(error),
            spec_strip_length_prefix(bytes@) matches Ok(archive) ==> {
                &&& archive.len() < 8 ==> result == Err::<&[u8], FrameError>(
                    FrameError::ShortHeaderTooShort { found: archive.len() as usize },
                )
                &&& archive.len() >= 8 ==> archive_validation(self, from_le_bytes(archive), result)
                &&& result matches Ok(body) ==> body@ == archive.subrange(8, archive.len() as int)
            },
    {
        let archive = strip_length_prefix(bytes)?;
        self.validate_archive(archive)
    }
}

/// A binding accepts a header that is bound to the same contract and
/// revision.
pub open spec fn binding_accepts(binding: (u32, u16), header: u64) -> bool {
    header_is_bound(header) && header_contract(header) == binding.0 && header_revision(header)
        == binding.1
}

/// The outcome of validating an archive whose header value is `header`:
/// accepted exactly when the binding accepts the header, and otherwise
/// refused with the error that header validation gives.
pub open spec fn archive_validation<T>(
    binding: ContractBinding,
    header: u64,
    result: Result<T, FrameError>,
) -> bool {
    &&& result is Ok <==> binding_accepts(binding@, header)
    &&& !header_is_bound(header) ==> (result matches Err(FrameError::UnboundHeader))
    &&& header_is_bound(header) && header_contract(header) != binding@.0 ==> (result matches Err(
        FrameError::ContractMismatch { expected, found },
    ) && expected == binding.spec_contract() && found@ == header_contract(header))
    &&& header_is_bound(header) && header_contract(header) == binding@.0 && header_revision(header)
        != binding@.1 ==> (result matches Err(
        FrameError::UnsupportedWireRevision { contract, expected, found },
    ) && contract == binding.spec_contract() && expected == binding.spec_revision() && found@
        == header_revision(header))
}

/// Route root byte. Its meaning remains local to the bound contract.
#[derive(Debug, Clone, Copy, PartialEq, Eq, Ord, Hash, Structural)]
pub struct RootCode {
    value: u8,
}

/// Ordered by value.
impl PartialOrd for RootCode {
    fn partial_cmp(&self, other: &Self) -> (order: Option<Ordering>) {
        if self.value < other.value {
            Some(Ordering::Less)
        } else if self.value == other.value {
            Some(Ordering::Equal)
        } else {
            Some(Ordering::Greater)
        }
    }
}

impl PartialOrdSpecImpl for RootCode {
    open spec fn obeys_partial_cmp_spec() -> bool {
        true
    }

    open spec fn partial_cmp_spec(&self, other: &Self) -> Option<Ordering> {
        if self@ < other@ {
            Some(Ordering::Less)
        } else if self@ == other@ {
            Some(Ordering::Equal)
        } else {
            Some(Ordering::Greater)
        }
    }
}

impl View for RootCode {
    type V = u8;

    closed spec fn view(&self) -> u8 {
        self.value
    }
}

impl RootCode {
    /// Two values of this type with the same view are the same value.
    pub proof fn lemma_view_injective(self, other: Self)
        requires
            self@ == other@,
        ensures
            self == other,
    {
    }

    pub fn new(value: u8) -> (code: Self)
        ensures
            code@ == value,
    {
        RootCode { value }
    }

    pub fn value(self) -> (value: u8)
        ensures
            value == self@,
    {
        self.value
    }
}

/// Route variant byte. Its meaning remains local to the bound contract.
#[derive(Debug, Clone, Copy, PartialEq, Eq, Ord, Hash, Structural)]
pub struct VariantCode {
    value: u8,
}

/// Ordered by value.
impl PartialOrd for VariantCode {
    fn partial_cmp(&self, other: &Self) -> (order: Option<Ordering>) {
        if self.value < other.value {
            Some(Ordering::Less)
        } else if self.value == other.value {
            Some(Ordering::Equal)
        } else {
            Some(Ordering::Greater)
        }
    }
}

impl PartialOrdSpecImpl for VariantCode {
    open spec fn obeys_partial_cmp_spec() -> bool {
        true
    }

    open spec fn partial_cmp_spec(&self, other: &Self) -> Option<Ordering> {
        if self@ < other@ {
            Some(Ordering::Less)
        } else if self@ == other@ {
            Some(Ordering::Equal)
        } else {
            Some(Ordering::Greater)
        }
    }
}

impl View for VariantCode {
    type V = u8;

    closed spec fn view(&self) -> u8 {
        self.value
    }
}

impl VariantCode {
    /// Two values of this type with the same view are the same value.
    pub proof fn lemma_view_injective(self, other: Self)
        requires
            self@ == other@,
        ensures
            self == other,
    {
    }

    pub fn new(value: u8) -> (code: Self)
        ensures
            code@ == value,
    {
        VariantCode { value }
    }

    pub fn value(self) -> (value: u8)
        ensures
            value == self@,
    {
        self.value
    }
}

/// Contract-local route carried in the high sixteen bits of a short
/// header.
#[derive(Debug, Clone, Copy, PartialEq, Eq, PartialOrd, Ord, Hash, Structural)]
pub struct WireRoute {
    root: RootCode,
    variant: VariantCode,
}

impl View for WireRoute {
    /// The root byte, then the variant byte.
    type V = (u8, u8);

    closed spec fn view(&self) -> (u8, u8) {
        (self.root@, self.variant@)
    }
}

/// The root byte of a log-variant projection: its lowest byte.
pub open spec fn log_variant_root(value: u64) -> u8 {
    (value & 0xff) as u8
}

/// The variant byte of a log-variant projection: its second byte.
pub open spec fn log_variant_variant(value: u64) -> u8 {
    ((value >> 8u64) & 0xff) as u8
}

/// A log-variant projection fits a route when no bit above the low
/// sixteen is set.
pub open spec fn log_variant_fits_route(value: u64) -> bool {
    value >> 16u64 == 0
}

impl WireRoute {
    /// Two values of this type with the same view are the same value.
    pub proof fn lemma_view_injective(self, other: Self)
        requires
            self@ == other@,
        ensures
            self == other,
    {
    }

    pub fn new(root: RootCode, variant: VariantCode) -> (route: Self)
        ensures
            route@ == (root@, variant@),
    {
        WireRoute { root, variant }
    }

    /// Takes the root from the lowest byte of a log-variant projection
    /// and the variant from its second byte; higher bytes are ignored.
    pub fn from_log_variant(value: u64) -> (route: Self)
        ensures
            route@ == (log_variant_root(value), log_variant_variant(value)),
    {
        WireRoute {
            root: RootCode::new((value & 0xff) as u8),
            variant: VariantCode::new(((value >> 8u64) & 0xff) as u8),
        }
    }

    /// Like [`WireRoute::from_log_variant`], but refuses a projection with
    /// any bit set above the low sixteen, which a route cannot carry.
    pub fn try_from_log_variant(value: u64) -> (result: Result<Self, WireRouteError>)
        ensures
            result is Ok <==> log_variant_fits_route(value),
            result matches Ok(route) ==> route@ == (
                log_variant_root(value),
                log_variant_variant(value),
            ),
            result matches Err(error) ==> error == (WireRouteError::BitsAboveRoute { value }),
    {
        if value >> 16u64 != 0 {
            Err(WireRouteError::BitsAboveRoute { value })
        } else {
            Ok(Self::from_log_variant(value))
        }
    }

    pub fn root(self) -> (root: RootCode)
        ensures
            root@ == self@.0,
    {
        self.root
    }

    pub fn variant(self) -> (variant: VariantCode)
        ensures
            variant@ == self@.1,
    {
        self.variant
    }
}

/// Type-level seam binding a consumer's frame constructors to one
/// contract. Contract crates implement it with the binding that the
/// workspace allocation owner assigned to them.
pub trait WireContract {
    /// The binding allocated to the contract, as a value.
    spec fn spec_binding() -> ContractBinding;

    /// The binding allocated to the contract.
    fn binding() -> (binding: ContractBinding)
        ensures
            binding == Self::spec_binding(),
    ;
}

/// Refusal of a reserved zero identifier.
#[derive(Debug, Clone, Copy, PartialEq, Eq, Structural)]
pub enum BindingIdentifierError {
    ReservedLegacyContractId,
    ReservedLegacyWireRevision,
}

/// Refusal of a log-variant projection that does not fit in a route.
#[derive(Debug, Clone, Copy, PartialEq, Eq, Structural)]
pub enum WireRouteError {
    BitsAboveRoute { value: u64 },
}

} // verus!
