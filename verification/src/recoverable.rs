//! Ethereum-style recoverable signatures.
//!
//! A recoverable signature is a 64-byte signature followed by a 1-byte
//! recovery [`Id`] (65 bytes total), which records the y parity of the
//! ephemeral point used during signing and so lets a verifier reconstruct
//! the signer's public point from the signature and digest alone.

use crate::bytes::{be_nat, lemma_be_nat_injective};
use crate::curve::{
    point_decompress, point_lincomb, spec_compressed_tag, spec_decompress, spec_lincomb,
    AffinePoint,
};
use crate::hash::{keccak256, spec_keccak256};
use crate::scalar::{group_order, inv_mod, mul_n, neg_n, NonZeroScalar, Scalar};
use crate::signature;
use crate::signature::{spec_normalize_s, valid_signature_bytes};
use crate::Error;
use vstd::prelude::*;

verus! {

broadcast use vstd::array::group_array_axioms;

/// The recovery id: whether the y coordinate of the ephemeral point was
/// odd.  Only the values 0 and 1 exist; the ecosystem convention also
/// defines 2 and 3 for an overflowed `r`, but those are deliberately
/// unsupported and rejected at construction.
#[derive(Clone, Copy, Debug, PartialEq, Eq, Structural)]
pub struct Id {
    pub byte: u8,
}

impl Id {
    /// Well-formed: the byte is 0 or 1.
    pub open spec fn wf(&self) -> bool {
        self.byte == 0 || self.byte == 1
    }

    /// Validates a recovery-id byte; exactly the bytes 0 and 1 are
    /// accepted, anything else fails with `InvalidRecoveryId`.
    pub fn new(byte: u8) -> (r: Result<Id, Error>)
        ensures
            match r {
                Ok(id) => id.byte == byte && byte <= 1,
                Err(e) => e == Error::InvalidRecoveryId && byte >= 2,
            },
    {
        if byte == 0 || byte == 1 {
            Ok(Id { byte })
        } else {
            Err(Error::InvalidRecoveryId)
        }
    }

    /// Whether the recovered ephemeral point's y coordinate is odd.
    pub fn is_y_odd(&self) -> (r: bool)
        ensures
            r <==> self.byte == 1,
    {
        self.byte == 1
    }

    /// The id as its byte value.
    pub fn to_byte(&self) -> (r: u8)
        ensures
            r == self.byte,
    {
        self.byte
    }
}

/// The outcome of public-key recovery on the values `(r, s, y_odd, z)`:
/// the ephemeral point is rebuilt from `r` and the parity bit, and the
/// candidate public point is `u2·R + u1·G` with `u1 = -(r⁻¹·z)` and
/// `u2 = r⁻¹·s`; decompression failure and a point-at-infinity result
/// both fail with `RecoveryFailed`.
pub open spec fn spec_recover(r: nat, s: nat, y_odd: bool, z: nat) -> Result<(nat, nat), Error> {
    match spec_decompress(r, y_odd) {
        Option::None => Result::Err(Error::RecoveryFailed),
        Option::Some(pt) => {
            let u1 = neg_n(mul_n(inv_mod(r), z));
            let u2 = mul_n(inv_mod(r), s);
            match spec_lincomb(u2, pt.0, pt.1, u1) {
                Option::None => Result::Err(Error::RecoveryFailed),
                Option::Some(q) => Result::Ok(q),
            }
        },
    }
}

/// How a 65-byte encoding parses: wrong length or an invalid embedded
/// signature fail with `InvalidEncoding`, a trailing byte other than 0 or
/// 1 fails with `InvalidRecoveryId`.
pub open spec fn spec_parse_recoverable(b: Seq<u8>) -> Result<(Seq<u8>, u8), Error> {
    if b.len() != 65 {
        Result::Err(Error::InvalidEncoding)
    } else if !valid_signature_bytes(b.subrange(0, 64)) {
        Result::Err(Error::InvalidEncoding)
    } else if b[64] >= 2 {
        Result::Err(Error::InvalidRecoveryId)
    } else {
        Result::Ok((b.subrange(0, 64), b[64]))
    }
}

/// Whether a 33-byte compressed encoding is exactly the compressed form
/// of the point `(x, y)`.
pub open spec fn spec_compressed_matches(pk: Seq<u8>, x: nat, y: nat) -> bool {
    pk.len() == 33 && pk[0] == spec_compressed_tag(y) && be_nat(pk.subrange(1, 33)) == x
}

/// Whether recovery with the given parity bit succeeds and reproduces the
/// expected compressed public key.
pub open spec fn spec_trial_matches(pk: Seq<u8>, r: nat, s: nat, z: nat, y_odd: bool) -> bool {
    match spec_recover(r, s, y_odd, z) {
        Result::Ok(q) => spec_compressed_matches(pk, q.0, q.1),
        Result::Err(_) => false,
    }
}

/// A recoverable signature: a signature and its recovery id, serialized
/// as `r ‖ s ‖ id` (65 bytes).
#[derive(Clone, Copy, Debug, PartialEq, Eq)]
pub struct Signature {
    pub signature: signature::Signature,
    pub id: Id,
}

impl Signature {
    /// Well-formed: the embedded signature and id are well-formed.
    pub open spec fn wf(&self) -> bool {
        self.signature.wf() && self.id.wf()
    }

    /// The 65-byte serialization.
    pub open spec fn spec_bytes(&self) -> Seq<u8> {
        self.signature.spec_bytes() + seq![self.id.byte]
    }

    /// `r` as a natural number.
    pub open spec fn r_nat(&self) -> nat {
        self.signature.r_nat()
    }

    /// `s` as a natural number.
    pub open spec fn s_nat(&self) -> nat {
        self.signature.s_nat()
    }

    /// Packs a signature and a recovery id.  The signature's invariants
    /// (nonzero `r` and `s` below the order) were already enforced at its
    /// own construction, so for well-formed inputs this cannot fail.
    pub fn new(sig: &signature::Signature, recovery_id: Id) -> (r: Result<Signature, Error>)
        requires
            sig.wf(),
            recovery_id.wf(),
        ensures
            match r {
                Ok(rs) => rs.signature == sig && rs.id == recovery_id && rs.wf(),
                Err(_) => false,
            },
    {
        Ok(Signature { signature: *sig, id: recovery_id })
    }

    /// The recovery id.
    pub fn recovery_id(&self) -> (r: Id)
        ensures
            r == self.id,
    {
        self.id
    }

    /// The `r` component.
    pub fn r(&self) -> (r: NonZeroScalar)
        ensures
            r == self.signature.r,
    {
        self.signature.r()
    }

    /// The `s` component.
    pub fn s(&self) -> (s: NonZeroScalar)
        ensures
            s == self.signature.s,
    {
        self.signature.s()
    }

    /// The embedded plain signature, with the recovery id stripped.
    pub fn to_signature(&self) -> (sig: signature::Signature)
        ensures
            sig == self.signature,
    {
        self.signature
    }

    /// Parses a byte string; succeeds exactly on 65 bytes whose first 64
    /// are a valid signature encoding and whose last is 0 or 1.
    pub fn parse(bytes: &[u8]) -> (result: Result<Signature, Error>)
        ensures
            match result {
                Ok(rs) => rs.wf() && spec_parse_recoverable(bytes@) == Result::<(Seq<u8>, u8),
                    Error,
                >::Ok((rs.signature.spec_bytes(), rs.id.byte)) && rs.spec_bytes() == bytes@,
                Err(e) => spec_parse_recoverable(bytes@) == Result::<(Seq<u8>, u8), Error>::Err(e),
            },
    {
        if bytes.len() != 65 {
            return Err(Error::InvalidEncoding);
        }
        let sig_part = vstd::slice::slice_subrange(bytes, 0, 64);
        let sig = match signature::Signature::parse(sig_part) {
            Ok(sig) => sig,
            Err(e) => {
                return Err(e);
            },
        };
        let id = match Id::new(bytes[64]) {
            Ok(id) => id,
            Err(e) => {
                return Err(e);
            },
        };
        proof {
            assert(bytes@.subrange(0, 64) + seq![bytes@[64]] =~= bytes@);
        }
        Ok(Signature { signature: sig, id })
    }

    /// The 65-byte serialization `r ‖ s ‖ id`.
    pub fn to_bytes(&self) -> (out: [u8; 65])
        ensures
            out@ == self.spec_bytes(),
    {
        let sig_bytes = self.signature.to_bytes();
        let mut out = [0u8; 65];
        let mut i: usize = 0;
        while i < 64
            invariant
                i <= 64,
                forall|j: int| 0 <= j < i ==> out@[j] == sig_bytes@[j],
            decreases 64 - i,
        {
            out[i] = sig_bytes[i];
            i += 1;
        }
        out[64] = self.id.to_byte();
        proof {
            assert(out@ =~= self.spec_bytes());
        }
        out
    }

    /// Recovers the public point from this signature and a 32-byte
    /// message digest: the algebraic inverse of signing.
    pub fn recover_verify_key_from_digest(&self, digest: &[u8; 32]) -> (result: Result<
        AffinePoint,
        Error,
    >)
        requires
            self.wf(),
        ensures
            match result {
                Ok(pk) => spec_recover(
                    self.r_nat(),
                    self.s_nat(),
                    self.id.byte == 1,
                    be_nat(digest@) % group_order(),
                ) == Result::<(nat, nat), Error>::Ok((pk.x_nat(), pk.y_nat())),
                Err(e) => spec_recover(
                    self.r_nat(),
                    self.s_nat(),
                    self.id.byte == 1,
                    be_nat(digest@) % group_order(),
                ) == Result::<(nat, nat), Error>::Err(e),
            },
    {
        let z = Scalar::from_bytes_reduced(digest);
        let r_scalar = self.signature.r().to_scalar();
        let r_bytes = r_scalar.to_bytes();
        let ephemeral = match point_decompress(&r_bytes, self.id.is_y_odd()) {
            Some(p) => p,
            None => {
                return Err(Error::RecoveryFailed);
            },
        };
        let r_inv = r_scalar.invert();
        let u1 = r_inv.mul_mod(&z).negate();
        let u2 = r_inv.mul_mod(&self.signature.s().to_scalar());
        let u1_bytes = u1.to_bytes();
        let u2_bytes = u2.to_bytes();
        match point_lincomb(&u2_bytes, &ephemeral, &u1_bytes) {
            Some(p) => Ok(p),
            None => Err(Error::RecoveryFailed),
        }
    }

    /// Recovers the public point from this signature and a raw message,
    /// which is first hashed with Keccak-256.
    pub fn recover_verify_key(&self, msg: &[u8]) -> (result: Result<AffinePoint, Error>)
        requires
            self.wf(),
        ensures
            match result {
                Ok(pk) => spec_recover(
                    self.r_nat(),
                    self.s_nat(),
                    self.id.byte == 1,
                    be_nat(spec_keccak256(msg@)) % group_order(),
                ) == Result::<(nat, nat), Error>::Ok((pk.x_nat(), pk.y_nat())),
                Err(e) => spec_recover(
                    self.r_nat(),
                    self.s_nat(),
                    self.id.byte == 1,
                    be_nat(spec_keccak256(msg@)) % group_order(),
                ) == Result::<(nat, nat), Error>::Err(e),
            },
    {
        let digest = keccak256(msg);
        self.recover_verify_key_from_digest(&digest)
    }

    /// Trial recovery: normalizes `s`, then tries recovery id 0 and then
    /// id 1, returning the first recoverable signature whose recovered
    /// public point has the expected compressed encoding.  Id 0 is always
    /// tried first, so which id is returned is deterministic.
    pub fn from_trial_recovery(
        public_key: &[u8; 33],
        msg: &[u8],
        sig: &signature::Signature,
    ) -> (result: Result<Signature, Error>)
        requires
            sig.wf(),
        ensures
            ({
                let z = be_nat(spec_keccak256(msg@)) % group_order();
                let sn = spec_normalize_s(sig.s_nat()).0;
                match result {
                    Ok(rs) => rs.wf() && rs.signature.r == sig.r && rs.s_nat() == sn && (rs.id.byte
                        == 0 || rs.id.byte == 1) && spec_trial_matches(
                        public_key@,
                        sig.r_nat(),
                        sn,
                        z,
                        rs.id.byte == 1,
                    ) && (rs.id.byte == 1 ==> !spec_trial_matches(
                        public_key@,
                        sig.r_nat(),
                        sn,
                        z,
                        false,
                    )),
                    Err(e) => e == Error::RecoveryFailed && !spec_trial_matches(
                        public_key@,
                        sig.r_nat(),
                        sn,
                        z,
                        false,
                    ) && !spec_trial_matches(public_key@, sig.r_nat(), sn, z, true),
                }
            }),
    {
        let mut normalized = *sig;
        let _ = normalized.normalize_s();
        let digest = keccak256(msg);
        let trial0 = Signature { signature: normalized, id: Id { byte: 0 } };
        if Self::trial_matches(&trial0, public_key, &digest) {
            return Ok(trial0);
        }
        let trial1 = Signature { signature: normalized, id: Id { byte: 1 } };
        if Self::trial_matches(&trial1, public_key, &digest) {
            return Ok(trial1);
        }
        Err(Error::RecoveryFailed)
    }

    /// Whether recovery on this signature reproduces the expected
    /// compressed public key.
    fn trial_matches(&self, public_key: &[u8; 33], digest: &[u8; 32]) -> (r: bool)
        requires
            self.wf(),
        ensures
            r == spec_trial_matches(
                public_key@,
                self.r_nat(),
                self.s_nat(),
                be_nat(digest@) % group_order(),
                self.id.byte == 1,
            ),
    {
        match self.recover_verify_key_from_digest(digest) {
            Ok(pk) => {
                let compressed = pk.to_compressed();
                let eq = crate::bytes::bytes_eq(public_key.as_slice(), compressed.as_slice());
                proof {
                    let pkv = public_key@;
                    let x = pk.x_nat();
                    let y = pk.y_nat();
                    if eq {
                        assert(pkv.subrange(1, 33) =~= compressed@.subrange(1, 33));
                        assert(compressed@.subrange(1, 33) =~= pk.x@);
                    } else {
                        if spec_compressed_matches(pkv, x, y) {
                            lemma_be_nat_injective(pkv.subrange(1, 33), pk.x@);
                            assert(pkv =~= compressed@);
                        }
                    }
                }
                eq
            },
            Err(_) => false,
        }
    }
}

/// A well-formed recoverable signature's serialization is a valid 65-byte
/// encoding: parsing the bytes written by `to_bytes` always succeeds.
pub proof fn lemma_recoverable_bytes_valid(rs: Signature)
    requires
        rs.wf(),
    ensures
        spec_parse_recoverable(rs.spec_bytes()) == Result::<(Seq<u8>, u8), Error>::Ok(
            (rs.signature.spec_bytes(), rs.id.byte),
        ),
{
    assert(rs.spec_bytes().subrange(0, 64) =~= rs.signature.spec_bytes());
    signature::lemma_signature_bytes_valid(rs.signature);
    assert(rs.spec_bytes()[64] == rs.id.byte);
}

/// A recoverable signature is determined by the values of `r`, `s` and
/// the recovery id.  Since the signing contract pins those values to a
/// function of the secret scalar, derived nonce and digest alone, two
/// signatures produced over the same inputs are identical: signing is
/// deterministic.
pub proof fn lemma_recoverable_value_determined(a: Signature, b: Signature)
    requires
        a.wf(),
        b.wf(),
        a.r_nat() == b.r_nat(),
        a.s_nat() == b.s_nat(),
        a.id.byte == b.id.byte,
    ensures
        a == b,
{
    lemma_be_nat_injective(a.signature.r.spec_bytes(), b.signature.r.spec_bytes());
    lemma_be_nat_injective(a.signature.s.spec_bytes(), b.signature.s.spec_bytes());
    assert(a.signature.r.scalar.bytes =~= b.signature.r.scalar.bytes);
    assert(a.signature.s.scalar.bytes =~= b.signature.s.scalar.bytes);
}

/// Serialization is injective on well-formed recoverable signatures:
/// together with `lemma_recoverable_bytes_valid` and the contract of
/// `parse`, a parse/serialize round trip reproduces both the bytes and
/// the signature.
pub proof fn lemma_recoverable_bytes_injective(a: Signature, b: Signature)
    requires
        a.wf(),
        b.wf(),
        a.spec_bytes() == b.spec_bytes(),
    ensures
        a == b,
{
    assert(a.spec_bytes().subrange(0, 64) =~= a.signature.spec_bytes());
    assert(b.spec_bytes().subrange(0, 64) =~= b.signature.spec_bytes());
    signature::lemma_signature_bytes_injective(a.signature, b.signature);
    assert(a.spec_bytes()[64] == a.id.byte && b.spec_bytes()[64] == b.id.byte);
}

} // verus!
