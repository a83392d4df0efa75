//! Digest derivation for candidate blocks.
//!
//! The digest of a candidate is its SHA-256 hash, computed by the sha2
//! crate behind a single trusted wrapper.

use vstd::prelude::*;
use sha2::Digest;

verus! {

/// The SHA-256 digest of a byte sequence.  The hash is a function of the
/// input bytes alone, so the result bears a name rather than a
/// definition; nothing else is assumed of it.
pub uninterp spec fn sha256_of(b: Seq<u8>) -> Seq<u8>;

/// Relies on sha2's `Sha256::digest`: it returns the 32-byte SHA-256
/// hash of the input, a deterministic function of the input bytes
/// alone.  SHA-256 is defined for messages under 2^64 bits, so inputs
/// of 2^61 bytes or more stay out.
#[verifier::external_body]
pub(crate) fn sha256(data: &Vec<u8>) -> (h: Vec<u8>)
    requires
        data@.len() < 0x2000_0000_0000_0000,
    ensures
        h@ == sha256_of(data@),
        h@.len() == 32,
{
    sha2::Sha256::digest(data.as_slice()).to_vec()
}

} // verus!
