//! Sections of the byte-0 root-verb namespace.
//!
//! A component's ordinary and owner contracts divide the 256 possible
//! byte-0 root-verb discriminators into two asymmetric sections: `Small`
//! is `0x00..=0x63` and `Big` is `0x64..=0xFF`. The cutoff is decimal
//! `100`, easy to remember during inspection, and the asymmetry is the
//! point: ordinary contracts usually have more public operation verbs
//! than owner contracts have policy verbs.

use vstd::prelude::*;

verus! {

/// Section of the byte-0 root-verb namespace claimed by a contract.
#[derive(Debug, Clone, Copy, PartialEq, Eq, Structural)]
pub enum NamespaceSection {
    /// The small section, covering `0x00..=0x63` (decimal `0..=99`).
    Small,
    /// The big section, covering `0x64..=0xFF` (decimal `100..=255`).
    Big,
}

/// First byte value in the [`NamespaceSection::Big`] section.
pub const SECTION_CUTOFF: u8 = 100;

/// The section a byte falls in.
pub open spec fn section_of(byte: u8) -> NamespaceSection {
    if byte < 100 {
        NamespaceSection::Small
    } else {
        NamespaceSection::Big
    }
}

/// Classify a byte-0 root-verb discriminator into its namespace section.
pub fn classify(byte: u8) -> (section: NamespaceSection)
    ensures
        section == section_of(byte),
{
    if byte < SECTION_CUTOFF {
        NamespaceSection::Small
    } else {
        NamespaceSection::Big
    }
}

impl NamespaceSection {
    /// Classify a byte-0 root-verb discriminator into its namespace
    /// section.
    pub fn classify(byte: u8) -> (section: Self)
        ensures
            section == section_of(byte),
    {
        classify(byte)
    }
}

} // verus!
