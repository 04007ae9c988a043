//! Trusted interface to the CRC-32 checksum of the `crc32fast` crate.
//!
//! The hasher is modelled by the sequence of bytes it has been fed
//! (`crc_fed`); the checksum of a byte sequence is given the name `crc32_of`,
//! since it is a function of those bytes alone but its definition is the
//! crate's own business.

use vstd::prelude::*;

verus! {

#[verifier::external_type_specification]
#[verifier::external_body]
pub struct ExHasher(crc32fast::Hasher);

/// The bytes a hasher has been fed so far.
pub uninterp spec fn crc_fed(h: crc32fast::Hasher) -> Seq<u8>;

/// The CRC-32 checksum of a byte sequence.
pub uninterp spec fn crc32_of(data: Seq<u8>) -> u32;

/// Relies on crc32fast::Hasher::new: a fresh hasher that has seen no bytes.
#[verifier::external_body]
pub(crate) fn crc_new() -> (h: crc32fast::Hasher)
    ensures
        crc_fed(h) == Seq::<u8>::empty(),
{
    crc32fast::Hasher::new()
}

/// Relies on crc32fast::Hasher::update: appends the given bytes to what the
/// hasher has seen.
#[verifier::external_body]
pub(crate) fn crc_update(h: &mut crc32fast::Hasher, data: &[u8])
    ensures
        crc_fed(*final(h)) == crc_fed(*old(h)) + data@,
{
    h.update(data)
}

/// Relies on crc32fast::Hasher::finalize: returns the CRC-32 of exactly the
/// bytes fed, a function of those bytes alone.
#[verifier::external_body]
pub(crate) fn crc_finalize(h: crc32fast::Hasher) -> (r: u32)
    ensures
        r == crc32_of(crc_fed(h)),
{
    h.finalize()
}

} // verus!
