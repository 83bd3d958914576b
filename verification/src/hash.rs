//! The Keccak-256 digest used by the raw-message convenience functions.
//!
//! The protocol layer itself only ever consumes 32-byte digests; hashing
//! a raw message is done by `sha3` behind a trusted wrapper whose result
//! is named, not spelled out.

use sha3::Digest;
use vstd::prelude::*;

verus! {

/// What Keccak-256 returns for a message: a 32-byte digest, a function of
/// the message alone.
pub uninterp spec fn spec_keccak256(msg: Seq<u8>) -> Seq<u8>;

/// Relies on `sha3::Keccak256` (through `Digest::digest`): the Keccak-256
/// digest of the message, 32 bytes, depending on the message alone.
#[verifier::external_body]
pub fn keccak256(msg: &[u8]) -> (r: [u8; 32])
    ensures
        r@ == spec_keccak256(msg@),
{
    sha3::Keccak256::digest(msg).into()
}

} // verus!
