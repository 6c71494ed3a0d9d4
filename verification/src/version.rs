//! Protocol version records and the handshake that compares them.

use vstd::prelude::*;

verus! {

#[derive(Debug, Clone, Copy, PartialEq, Eq, Structural)]
pub struct ProtocolVersion {
    major: u16,
    minor: u16,
    patch: u16,
}

impl View for ProtocolVersion {
    /// Major, minor and patch numbers.
    type V = (u16, u16, u16);

    closed spec fn view(&self) -> (u16, u16, u16) {
        (self.major, self.minor, self.patch)
    }
}

/// A local version accepts a peer of the same major version whose minor
/// version is not newer; the patch number does not matter.
pub open spec fn version_accepts(local: (u16, u16, u16), peer: (u16, u16, u16)) -> bool {
    local.0 == peer.0 && local.1 >= peer.1
}

impl ProtocolVersion {
    /// Two values of this type with the same view are the same value.
    pub proof fn lemma_view_injective(self, other: Self)
        requires
            self@ == other@,
        ensures
            self == other,
    {
    }

    pub fn new(major: u16, minor: u16, patch: u16) -> (version: Self)
        ensures
            version@ == (major, minor, patch),
    {
        ProtocolVersion { major, minor, patch }
    }

    pub fn major(&self) -> (major: u16)
        ensures
            major == self@.0,
    {
        self.major
    }

    pub fn minor(&self) -> (minor: u16)
        ensures
            minor == self@.1,
    {
        self.minor
    }

    pub fn patch(&self) -> (patch: u16)
        ensures
            patch == self@.2,
    {
        self.patch
    }

    /// Whether this side accepts a peer speaking `peer`.
    pub fn accepts(&self, peer: Self) -> (accepted: bool)
        ensures
            accepted == version_accepts(self@, peer@),
    {
        self.major == peer.major && self.minor >= peer.minor
    }
}

/// The protocol version this crate speaks.
pub fn signal_frame_protocol_version() -> (version: ProtocolVersion)
    ensures
        version@ == (0u16, 1u16, 0u16),
{
    ProtocolVersion::new(0, 1, 0)
}

/// Every version accepts itself, and acceptance chains: a side that
/// accepts a peer also accepts every version that peer accepts.
pub proof fn lemma_accepts_is_a_preorder(a: (u16, u16, u16), b: (u16, u16, u16), c: (u16, u16, u16))
    ensures
        version_accepts(a, a),
        version_accepts(a, b) && version_accepts(b, c) ==> version_accepts(a, c),
{
}

/// Acceptance never looks at the peer's patch number: two peers that differ
/// only in their patch are accepted alike.
pub proof fn lemma_accepts_ignores_patch(local: (u16, u16, u16), major: u16, minor: u16, patch: u16, other_patch: u16)
    ensures
        version_accepts(local, (major, minor, patch)) == version_accepts(local, (major, minor, other_patch)),
{
}

/// Acceptance is exactly agreement on the major version with a peer minor
/// version that is not newer than the local one, whatever either patch.
pub proof fn lemma_accepts_same_major_older_minor(local: (u16, u16, u16), peer: (u16, u16, u16))
    ensures
        local.0 == peer.0 && local.1 >= peer.1 ==> version_accepts(local, peer),
        local.0 != peer.0 ==> !version_accepts(local, peer),
        local.1 < peer.1 ==> !version_accepts(local, peer),
{
}

#[derive(Debug, Clone, PartialEq, Eq, Structural)]
pub struct HandshakeRequest {
    version: ProtocolVersion,
}

impl HandshakeRequest {
    /// The version the request offers.
    pub closed spec fn spec_version(self) -> ProtocolVersion {
        self.version
    }

    pub fn new(version: ProtocolVersion) -> (request: Self)
        ensures
            request.spec_version() == version,
    {
        HandshakeRequest { version }
    }

    /// A request offering the version this crate speaks.
    pub fn current() -> (request: Self)
        ensures
            request.spec_version()@ == (0u16, 1u16, 0u16),
    {
        Self::new(signal_frame_protocol_version())
    }

    pub fn version(&self) -> (version: ProtocolVersion)
        ensures
            version == self.spec_version(),
    {
        self.version
    }
}

#[derive(Debug, Clone, PartialEq, Eq, Structural)]
pub enum HandshakeReply {
    Accepted(ProtocolVersion),
    Rejected(HandshakeRejectionReason),
}

#[derive(Debug, Clone, PartialEq, Eq, Structural)]
pub enum HandshakeRejectionReason {
    IncompatibleVersion { local: ProtocolVersion, peer: ProtocolVersion },
}

} // verus!
