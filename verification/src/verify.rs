//! The verifier: holds a public point and checks the ECDSA verification
//! equation against a digest and a signature.
//!
//! Verification rejects non-canonical (high-S) signatures with
//! `SignatureMalleable` rather than silently normalizing them; accepting
//! a malleable signature is the signer's decision, never the verifier's.

use crate::bytes::{be_nat, bytes32_eq, lemma_be_nat_injective};
use crate::curve::{point_lincomb, spec_lincomb, AffinePoint};
use crate::hash::{keccak256, spec_keccak256};
use crate::recoverable;
use crate::scalar::{group_order, half_order, inv_mod, mul_n, Scalar};
use crate::signature::Signature;
use crate::Error;
use vstd::prelude::*;

verus! {

broadcast use vstd::array::group_array_axioms;

/// The outcome of ECDSA verification on the values
/// `(px, py, r, s, z)` — public point, signature scalars, reduced digest.
/// A high `s` fails with `SignatureMalleable`; otherwise the candidate
/// point `u2·P + u1·G` is computed with `u1 = z·s⁻¹` and `u2 = r·s⁻¹`,
/// and verification succeeds exactly when its reduced x coordinate
/// equals `r`.
pub open spec fn spec_verify(px: nat, py: nat, r: nat, s: nat, z: nat) -> Result<(), Error> {
    if s > half_order() {
        Result::Err(Error::SignatureMalleable)
    } else {
        let u1 = mul_n(z, inv_mod(s));
        let u2 = mul_n(r, inv_mod(s));
        match spec_lincomb(u2, px, py, u1) {
            Option::None => Result::Err(Error::InvalidSignature),
            Option::Some(q) => {
                if q.0 % group_order() == r {
                    Result::Ok(())
                } else {
                    Result::Err(Error::InvalidSignature)
                }
            },
        }
    }
}

impl AffinePoint {
    /// Checks the ECDSA verification equation for this public point
    /// against a reduced digest and a signature.  A zero `r` or `s`
    /// cannot reach this boundary: both components are `NonZeroScalar`s
    /// by construction.
    pub fn verify_prehashed(&self, z: &Scalar, sig: &Signature) -> (result: Result<(), Error>)
        requires
            z.wf(),
            sig.wf(),
        ensures
            result == spec_verify(self.x_nat(), self.y_nat(), sig.r_nat(), sig.s_nat(), z.as_nat()),
    {
        let s_scalar = sig.s().to_scalar();
        if s_scalar.is_high() {
            return Err(Error::SignatureMalleable);
        }
        let s_inv = s_scalar.invert();
        let u1 = z.mul_mod(&s_inv);
        let u2 = sig.r().to_scalar().mul_mod(&s_inv);
        let u1_bytes = u1.to_bytes();
        let u2_bytes = u2.to_bytes();
        match point_lincomb(&u2_bytes, self, &u1_bytes) {
            None => Err(Error::InvalidSignature),
            Some(q) => {
                let x_reduced = Scalar::from_bytes_reduced(&q.x);
                let xb = x_reduced.to_bytes();
                let rb = sig.r().to_bytes();
                if bytes32_eq(&xb, &rb) {
                    Ok(())
                } else {
                    proof {
                        if be_nat(q.x@) % group_order() == sig.r_nat() {
                            lemma_be_nat_injective(xb@, rb@);
                        }
                    }
                    Err(Error::InvalidSignature)
                }
            },
        }
    }
}

/// The verifier: owns a public point, immutable once constructed.
#[derive(Clone, Copy, Debug)]
pub struct Verifier {
    pub public_key: AffinePoint,
}

impl Verifier {
    /// Creates a verifier for a public point.
    pub fn new(public_key: &AffinePoint) -> (r: Verifier)
        ensures
            r.public_key == public_key,
    {
        Verifier { public_key: *public_key }
    }

    /// Creates a verifier from a 33-byte compressed public key encoding;
    /// fails with `InvalidEncoding` when the bytes are not a valid
    /// compressed curve point.
    pub fn from_compressed(public_key: &[u8]) -> (r: Result<Verifier, Error>)
        ensures
            match r {
                Ok(v) => crate::curve::spec_decompress(
                    be_nat(public_key@.subrange(1, 33)),
                    public_key@[0] == 3,
                ) == Option::Some((v.public_key.x_nat(), v.public_key.y_nat())) && public_key@.len()
                    == 33 && (public_key@[0] == 2 || public_key@[0] == 3),
                Err(e) => e == Error::InvalidEncoding && (public_key@.len() != 33 || (
                public_key@[0] != 2 && public_key@[0] != 3) || crate::curve::spec_decompress(
                    be_nat(public_key@.subrange(1, 33)),
                    public_key@[0] == 3,
                ) is None),
            },
    {
        match AffinePoint::from_compressed(public_key) {
            Ok(p) => Ok(Verifier { public_key: p }),
            Err(e) => Err(e),
        }
    }

    /// Verifies a signature against a 32-byte message digest.
    pub fn verify_digest(&self, digest: &[u8; 32], sig: &Signature) -> (result: Result<(), Error>)
        requires
            sig.wf(),
        ensures
            result == spec_verify(
                self.public_key.x_nat(),
                self.public_key.y_nat(),
                sig.r_nat(),
                sig.s_nat(),
                be_nat(digest@) % group_order(),
            ),
    {
        let z = Scalar::from_bytes_reduced(digest);
        self.public_key.verify_prehashed(&z, sig)
    }

    /// Verifies a recoverable signature against a 32-byte message digest
    /// by first stripping the recovery id, which plain verification does
    /// not need.
    pub fn verify_digest_recoverable(&self, digest: &[u8; 32], sig: &recoverable::Signature) -> (result:
        Result<(), Error>)
        requires
            sig.wf(),
        ensures
            result == spec_verify(
                self.public_key.x_nat(),
                self.public_key.y_nat(),
                sig.r_nat(),
                sig.s_nat(),
                be_nat(digest@) % group_order(),
            ),
    {
        let plain = sig.to_signature();
        self.verify_digest(digest, &plain)
    }

    /// Verifies a recoverable signature against a raw message, which is
    /// first hashed with Keccak-256.
    pub fn verify_message(&self, msg: &[u8], sig: &recoverable::Signature) -> (result: Result<
        (),
        Error,
    >)
        requires
            sig.wf(),
        ensures
            result == spec_verify(
                self.public_key.x_nat(),
                self.public_key.y_nat(),
                sig.r_nat(),
                sig.s_nat(),
                be_nat(spec_keccak256(msg@)) % group_order(),
            ),
    {
        let digest = keccak256(msg);
        self.verify_digest_recoverable(&digest, sig)
    }
}

/// Signing emits canonical signatures: whatever signing succeeds with,
/// its `s` is low, so verification never rejects a signed pair as
/// malleable — for any public point.  (Whether the pair verifies is the
/// curve algebra's business, owned by the arithmetic provider.)
pub proof fn lemma_signed_never_malleable(d: nat, k: nat, z: nat, px: nat, py: nat)
    ensures
        match crate::signer::spec_sign(d, k, z) {
            Result::Ok(t) => spec_verify(px, py, t.0, t.1, z) != Result::<(), Error>::Err(
                Error::SignatureMalleable,
            ),
            Result::Err(_) => true,
        },
{
    crate::scalar::lemma_order_facts();
}

/// Malleability rejection: for every public point, digest and `r`,
/// verification fails with `SignatureMalleable` exactly when `s` is
/// high (above `(n - 1) / 2`).
pub proof fn lemma_high_s_rejected(px: nat, py: nat, r: nat, s: nat, z: nat)
    ensures
        spec_verify(px, py, r, s, z) == Result::<(), Error>::Err(Error::SignatureMalleable) <==> s
            > half_order(),
{
}

} // verus!
