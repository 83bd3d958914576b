//! The signer: deterministic ECDSA signing with recoverable-signature
//! production.
//!
//! A signer owns one nonzero secret scalar.  Per message it derives a
//! deterministic nonce (RFC 6979-style HMAC-DRBG, behind a trusted
//! wrapper), runs the core signing algebra on scalars, and records the
//! recovery id from the ephemeral point's y parity, corrected by whether
//! low-S normalization flipped `s`.

use crate::bytes::{be_nat, lemma_be_nat_parity};
use crate::curve::{point_mul_gen, spec_mul_gen, AffinePoint};
use crate::hash::{keccak256, spec_keccak256};
use crate::recoverable;
use crate::recoverable::Id;
use crate::scalar::{
    add_n, group_order, half_order, inv_mod, mul_n, NonZeroScalar, Scalar,
};
use crate::signature::{spec_normalize_s, Signature};
use crate::Error;
use vstd::prelude::*;

verus! {

broadcast use vstd::array::group_array_axioms;

/// What the deterministic nonce generator returns for a secret key,
/// digest and extra entropy: 32 bytes, a function of those inputs alone.
pub uninterp spec fn spec_nonce(secret: Seq<u8>, digest: Seq<u8>, extra: Seq<u8>) -> Seq<u8>;

/// The derived ephemeral scalar: the nonce bytes reduced into the scalar
/// field.
pub open spec fn spec_nonce_k(secret: Seq<u8>, digest: Seq<u8>, extra: Seq<u8>) -> nat {
    be_nat(spec_nonce(secret, digest, extra)) % group_order()
}

/// Relies on `hmac_drbg::HmacDRBG` over `sha2::Sha256` (the HMAC-DRBG
/// construction RFC 6979 builds on): seeded with the secret key as
/// entropy, the digest as nonce and the extra bytes as personalization,
/// its first 32 output bytes depend on those inputs alone.
#[verifier::external_body]
fn derive_nonce(secret: &[u8; 32], digest: &[u8; 32], extra: &[u8]) -> (r: [u8; 32])
    ensures
        r@ == spec_nonce(secret@, digest@, extra@),
{
    let mut drbg = hmac_drbg::HmacDRBG::<sha2::Sha256>::new(secret, digest, extra);
    drbg.generate::<sha2::digest::consts::U32>(None).into()
}

/// The outcome of the core signing algorithm on the values
/// `(d, k, z)` — secret scalar, ephemeral scalar, reduced digest:
/// `r` is the reduced x coordinate of `k·G`, `s = k⁻¹·(z + r·d)`,
/// and the recovery id is the ephemeral point's y parity XOR whether
/// low-S normalization flipped `s`.  Every internal zero or
/// point-at-infinity condition fails with `SigningFailed`.
pub open spec fn spec_sign(d: nat, k: nat, z: nat) -> Result<(nat, nat, u8), Error> {
    if k == 0 {
        Result::Err(Error::SigningFailed)
    } else {
        match spec_mul_gen(k) {
            Option::None => Result::Err(Error::SigningFailed),
            Option::Some(ept) => {
                let r = ept.0 % group_order();
                if r == 0 {
                    Result::Err(Error::SigningFailed)
                } else {
                    let s0 = mul_n(inv_mod(k), add_n(z, mul_n(r, d)));
                    if s0 == 0 {
                        Result::Err(Error::SigningFailed)
                    } else {
                        let is_r_odd = ept.1 % 2 == 1;
                        let flipped = spec_normalize_s(s0).1;
                        Result::Ok(
                            (
                                r,
                                spec_normalize_s(s0).0,
                                if is_r_odd != flipped {
                                    1u8
                                } else {
                                    0u8
                                },
                            ),
                        )
                    }
                }
            },
        }
    }
}

impl NonZeroScalar {
    /// The core signing algorithm, on a secret scalar: consumes an
    /// ephemeral scalar and a reduced digest and produces a recoverable
    /// signature whose `s` is canonically low.
    pub fn try_sign_recoverable_prehashed(
        &self,
        ephemeral_scalar: &Scalar,
        z: &Scalar,
    ) -> (result: Result<recoverable::Signature, Error>)
        requires
            self.wf(),
            ephemeral_scalar.wf(),
            z.wf(),
        ensures
            match result {
                Ok(rs) => rs.wf() && spec_sign(self.as_nat(), ephemeral_scalar.as_nat(), z.as_nat())
                    == Result::<(nat, nat, u8), Error>::Ok((rs.r_nat(), rs.s_nat(), rs.id.byte))
                    && rs.s_nat() <= half_order(),
                Err(e) => spec_sign(self.as_nat(), ephemeral_scalar.as_nat(), z.as_nat())
                    == Result::<(nat, nat, u8), Error>::Err(e),
            },
    {
        if ephemeral_scalar.is_zero() {
            return Err(Error::SigningFailed);
        }
        let k_inv = ephemeral_scalar.invert();
        let kb = ephemeral_scalar.to_bytes();
        let ephemeral_point = match point_mul_gen(&kb) {
            Some(p) => p,
            None => {
                return Err(Error::SigningFailed);
            },
        };
        let r_scalar = Scalar::from_bytes_reduced(&ephemeral_point.x);
        let r_nonzero = match NonZeroScalar::new(&r_scalar) {
            Some(r) => r,
            None => {
                return Err(Error::SigningFailed);
            },
        };
        let r_times_d = r_scalar.mul_mod(&self.to_scalar());
        let z_plus_rd = z.add_mod(&r_times_d);
        let s_scalar = k_inv.mul_mod(&z_plus_rd);
        let s_nonzero = match NonZeroScalar::new(&s_scalar) {
            Some(s) => s,
            None => {
                return Err(Error::SigningFailed);
            },
        };
        let is_r_odd = ephemeral_point.y[31] % 2 == 1;
        proof {
            lemma_be_nat_parity(ephemeral_point.y@);
            assert(ephemeral_point.y@.last() == ephemeral_point.y@[31]);
        }
        let mut sig = Signature::from_scalars(&r_nonzero, &s_nonzero);
        let is_s_high = sig.normalize_s();
        let id = Id {
            byte: if is_r_odd != is_s_high {
                1
            } else {
                0
            },
        };
        recoverable::Signature::new(&sig, id)
    }
}

/// The signer: owns the private scalar, immutable once constructed.
/// Deliberately without `Debug`: nothing may print the secret key.
#[derive(Clone, Copy)]
pub struct Signer {
    pub secret_scalar: NonZeroScalar,
}

impl Signer {
    /// Well-formed: the secret scalar is nonzero and below the order.
    pub open spec fn wf(&self) -> bool {
        self.secret_scalar.wf()
    }

    /// The secret scalar as a natural number.
    pub open spec fn secret_nat(&self) -> nat {
        self.secret_scalar.as_nat()
    }

    /// Creates a signer from a 32-byte secret key; fails with
    /// `InvalidPrivateKey` exactly when the bytes do not denote a nonzero
    /// scalar below the group order.
    pub fn new(secret_key: &[u8; 32]) -> (r: Result<Signer, Error>)
        ensures
            match r {
                Ok(s) => s.wf() && s.secret_scalar.spec_bytes() == secret_key@ && 0 < be_nat(
                    secret_key@,
                ) < group_order(),
                Err(e) => e == Error::InvalidPrivateKey && (be_nat(secret_key@) == 0 || be_nat(
                    secret_key@,
                ) >= group_order()),
            },
    {
        match NonZeroScalar::from_bytes(secret_key) {
            Some(s) => Ok(Signer { secret_scalar: s }),
            None => Err(Error::InvalidPrivateKey),
        }
    }

    /// Wraps an already-validated secret scalar.
    pub fn from_nonzero_scalar(secret_scalar: &NonZeroScalar) -> (r: Signer)
        requires
            secret_scalar.wf(),
        ensures
            r.wf() && r.secret_scalar == secret_scalar,
    {
        Signer { secret_scalar: *secret_scalar }
    }

    /// The public point `d·G` of this signer's secret scalar `d`.  The
    /// group arithmetic reports the point at infinity as a failure; that
    /// cannot happen for a nonzero scalar, but is propagated rather than
    /// assumed away.
    pub fn verify_key(&self) -> (r: Result<AffinePoint, Error>)
        requires
            self.wf(),
        ensures
            match r {
                Ok(pk) => spec_mul_gen(self.secret_nat()) == Option::Some(
                    (pk.x_nat(), pk.y_nat()),
                ),
                Err(e) => e == Error::InvalidPrivateKey && spec_mul_gen(self.secret_nat()) is None,
            },
    {
        let db = self.secret_scalar.to_bytes();
        match point_mul_gen(&db) {
            Some(p) => Ok(p),
            None => Err(Error::InvalidPrivateKey),
        }
    }

    /// Signs a 32-byte digest, producing a recoverable signature; the
    /// nonce is derived deterministically from the secret key and digest.
    pub fn sign_recoverable(&self, digest: &[u8; 32]) -> (result: Result<
        recoverable::Signature,
        Error,
    >)
        requires
            self.wf(),
        ensures
            ({
                let k = spec_nonce_k(self.secret_scalar.spec_bytes(), digest@, Seq::<u8>::empty());
                let z = be_nat(digest@) % group_order();
                match result {
                    Ok(rs) => rs.wf() && spec_sign(self.secret_nat(), k, z) == Result::<
                        (nat, nat, u8),
                        Error,
                    >::Ok((rs.r_nat(), rs.s_nat(), rs.id.byte)) && rs.s_nat() <= half_order(),
                    Err(e) => spec_sign(self.secret_nat(), k, z) == Result::<
                        (nat, nat, u8),
                        Error,
                    >::Err(e),
                }
            }),
    {
        let extra: Vec<u8> = Vec::new();
        let sk = self.secret_scalar.to_bytes();
        let kb = derive_nonce(&sk, digest, extra.as_slice());
        let k = Scalar::from_bytes_reduced(&kb);
        let z = Scalar::from_bytes_reduced(digest);
        self.secret_scalar.try_sign_recoverable_prehashed(&k, &z)
    }

    /// Signs a 32-byte digest with caller-supplied extra entropy mixed
    /// into nonce derivation — additional input, not a substitute for
    /// determinism.
    pub fn sign_recoverable_with_entropy(&self, digest: &[u8; 32], entropy: &[u8; 32]) -> (result:
        Result<recoverable::Signature, Error>)
        requires
            self.wf(),
        ensures
            ({
                let k = spec_nonce_k(self.secret_scalar.spec_bytes(), digest@, entropy@);
                let z = be_nat(digest@) % group_order();
                match result {
                    Ok(rs) => rs.wf() && spec_sign(self.secret_nat(), k, z) == Result::<
                        (nat, nat, u8),
                        Error,
                    >::Ok((rs.r_nat(), rs.s_nat(), rs.id.byte)) && rs.s_nat() <= half_order(),
                    Err(e) => spec_sign(self.secret_nat(), k, z) == Result::<
                        (nat, nat, u8),
                        Error,
                    >::Err(e),
                }
            }),
    {
        let sk = self.secret_scalar.to_bytes();
        let kb = derive_nonce(&sk, digest, entropy.as_slice());
        let k = Scalar::from_bytes_reduced(&kb);
        let z = Scalar::from_bytes_reduced(digest);
        self.secret_scalar.try_sign_recoverable_prehashed(&k, &z)
    }

    /// Signs a 32-byte digest, producing a plain signature: the
    /// recoverable algorithm with the recovery id dropped.
    pub fn sign(&self, digest: &[u8; 32]) -> (result: Result<Signature, Error>)
        requires
            self.wf(),
        ensures
            ({
                let k = spec_nonce_k(self.secret_scalar.spec_bytes(), digest@, Seq::<u8>::empty());
                let z = be_nat(digest@) % group_order();
                match result {
                    Ok(sig) => sig.wf() && match spec_sign(self.secret_nat(), k, z) {
                        Result::Ok(t) => t.0 == sig.r_nat() && t.1 == sig.s_nat(),
                        Result::Err(_) => false,
                    } && sig.s_nat() <= half_order(),
                    Err(e) => spec_sign(self.secret_nat(), k, z) == Result::<
                        (nat, nat, u8),
                        Error,
                    >::Err(e),
                }
            }),
    {
        match self.sign_recoverable(digest) {
            Ok(rs) => Ok(rs.to_signature()),
            Err(e) => Err(e),
        }
    }

    /// Signs a raw message, which is first hashed with Keccak-256, and
    /// produces a recoverable signature.
    pub fn sign_message(&self, msg: &[u8]) -> (result: Result<recoverable::Signature, Error>)
        requires
            self.wf(),
        ensures
            ({
                let digest = spec_keccak256(msg@);
                let k = spec_nonce_k(self.secret_scalar.spec_bytes(), digest, Seq::<u8>::empty());
                let z = be_nat(digest) % group_order();
                match result {
                    Ok(rs) => rs.wf() && spec_sign(self.secret_nat(), k, z) == Result::<
                        (nat, nat, u8),
                        Error,
                    >::Ok((rs.r_nat(), rs.s_nat(), rs.id.byte)) && rs.s_nat() <= half_order(),
                    Err(e) => spec_sign(self.secret_nat(), k, z) == Result::<
                        (nat, nat, u8),
                        Error,
                    >::Err(e),
                }
            }),
    {
        let digest = keccak256(msg);
        self.sign_recoverable(&digest)
    }
}

} // verus!
