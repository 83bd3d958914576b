//! ECDSA over secp256k1 with Ethereum-style recoverable signatures.
//!
//! The protocol layer (signature encodings, low-S normalization, the
//! deterministic signing algorithm, verification and public-key recovery)
//! is verified.  The curve's scalar and group arithmetic, the Keccak-256
//! digest and the deterministic nonce generator are supplied by outside
//! crates behind trusted wrappers.

use vstd::prelude::*;

pub mod bytes;
pub mod curve;
pub mod hash;
pub mod recoverable;
pub mod scalar;
pub mod signature;
pub mod signer;
pub mod verify;

verus! {

/// Every failure of the protocol layer, returned as a distinct value.
/// No error carries data: nothing secret-dependent is leaked to callers.
#[derive(Clone, Copy, Debug, PartialEq, Eq, Structural)]
pub enum Error {
    /// Wrong byte length, or an out-of-range component, during parsing.
    InvalidEncoding,
    /// A private scalar that is zero or not below the curve order.
    InvalidPrivateKey,
    /// A recovery-id byte outside {0, 1}.
    InvalidRecoveryId,
    /// An internal zero or point-at-infinity condition during signing.
    SigningFailed,
    /// The verification equation did not hold, or a zero r/s at the boundary.
    InvalidSignature,
    /// The signature's s component is not canonically low at verification.
    SignatureMalleable,
    /// Decompression failure, a point-at-infinity result, or no recovery id
    /// that matches during trial recovery.
    RecoveryFailed,
}

} // verus!
