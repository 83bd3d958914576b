//! Affine secp256k1 points and the group operations the protocol needs.
//!
//! A point is held as its two coordinates' canonical 32-byte big-endian
//! serializations, so all protocol logic works on plain values.  The group
//! arithmetic itself (decompression, scalar multiplication, linear
//! combinations with the generator) is done by `libsecp256k1` behind
//! trusted wrappers; its results are named by uninterpreted functions,
//! since spelling out the curve algebra is not this layer's business.

use crate::bytes::{be_nat, lemma_be_nat_parity};
use libsecp256k1::curve::{Affine, Field, Jacobian, Scalar};
use libsecp256k1::{ECMULT_CONTEXT, ECMULT_GEN_CONTEXT};
use vstd::prelude::*;

verus! {

broadcast use vstd::array::group_array_axioms;

/// An affine curve point (never the point at infinity): the coordinate
/// pair, each a canonical 32-byte big-endian field-element serialization.
#[derive(Clone, Copy, Debug, PartialEq, Eq)]
pub struct AffinePoint {
    pub x: [u8; 32],
    pub y: [u8; 32],
}

impl AffinePoint {
    /// The x coordinate as a natural number.
    pub open spec fn x_nat(&self) -> nat {
        be_nat(self.x@)
    }

    /// The y coordinate as a natural number.
    pub open spec fn y_nat(&self) -> nat {
        be_nat(self.y@)
    }
}

/// What decompressing an x coordinate with a chosen y parity yields: the
/// point's coordinates, or nothing when no curve point has that x.
pub uninterp spec fn spec_decompress(x: nat, y_odd: bool) -> Option<(nat, nat)>;

/// What the linear combination `na·A + ng·G` of a point `A` and the fixed
/// generator `G` yields in affine form: coordinates, or nothing for the
/// point at infinity — or when `A`'s coordinate bytes are not canonical
/// field elements, which the wrapper rejects before the group arithmetic
/// sees them.
pub uninterp spec fn spec_lincomb(na: nat, ax: nat, ay: nat, ng: nat) -> Option<(nat, nat)>;

/// What the scalar multiple `k·G` of the fixed generator yields in affine
/// form: coordinates, or nothing for the point at infinity.
pub uninterp spec fn spec_mul_gen(k: nat) -> Option<(nat, nat)>;

/// Relies on `libsecp256k1::curve::Field::set_b32` and
/// `Affine::set_xo_var`: reads a 32-byte x coordinate and builds the curve
/// point with the requested y parity; fails exactly when the bytes are not
/// a canonical field element or no curve point has that x coordinate.
#[verifier::external_body]
pub(crate) fn point_decompress(x: &[u8; 32], y_odd: bool) -> (r: Option<AffinePoint>)
    ensures
        match r {
            Some(p) => spec_decompress(be_nat(x@), y_odd) == Some(
                (be_nat(p.x@), be_nat(p.y@)),
            ),
            None => spec_decompress(be_nat(x@), y_odd) is None,
        },
{
    let mut fx = Field::default();
    if !fx.set_b32(x) {
        return None;
    }
    let mut a = Affine::default();
    if !a.set_xo_var(&fx, y_odd) {
        return None;
    }
    a.x.normalize_var();
    a.y.normalize_var();
    Some(AffinePoint { x: a.x.b32(), y: a.y.b32() })
}

/// Relies on `libsecp256k1::ECMULT_CONTEXT.ecmult` and
/// `Field::set_b32`: computes `na·A + ng·G` and converts it to affine
/// form, reporting the point at infinity as `None`.  A coordinate of `A`
/// that is not a canonical field element also yields `None`: the failed
/// parse is checked, never handed on.
#[verifier::external_body]
pub(crate) fn point_lincomb(na: &[u8; 32], a: &AffinePoint, ng: &[u8; 32]) -> (r: Option<
    AffinePoint,
>)
    requires
        be_nat(na@) < crate::scalar::group_order(),
        be_nat(ng@) < crate::scalar::group_order(),
    ensures
        match r {
            Some(p) => spec_lincomb(be_nat(na@), be_nat(a.x@), be_nat(a.y@), be_nat(ng@))
                == Some((be_nat(p.x@), be_nat(p.y@))),
            None => spec_lincomb(be_nat(na@), be_nat(a.x@), be_nat(a.y@), be_nat(ng@)) is None,
        },
{
    let (mut u, mut v) = (Scalar::default(), Scalar::default());
    let (_, _) = (u.set_b32(na), v.set_b32(ng));
    let mut p = Affine::default();
    let (okx, oky) = (p.x.set_b32(&a.x), p.y.set_b32(&a.y));
    if !(okx && oky) { return None; }
    let mut j = Jacobian::default();
    ECMULT_CONTEXT.ecmult(&mut j, &Jacobian::from_ge(&p), &u, &v);
    let mut q = Affine::from_gej(&j);
    if q.is_infinity() { return None; }
    q.x.normalize_var(); q.y.normalize_var();
    Some(AffinePoint { x: q.x.b32(), y: q.y.b32() })
}

/// Relies on `libsecp256k1::ECMULT_GEN_CONTEXT.ecmult_gen`: computes
/// `k·G` and converts it to affine form, reporting the point at infinity
/// as `None`.
#[verifier::external_body]
pub(crate) fn point_mul_gen(k: &[u8; 32]) -> (r: Option<AffinePoint>)
    requires
        be_nat(k@) < crate::scalar::group_order(),
    ensures
        match r {
            Some(p) => spec_mul_gen(be_nat(k@)) == Some((be_nat(p.x@), be_nat(p.y@))),
            None => spec_mul_gen(be_nat(k@)) is None,
        },
{
    let mut sk = Scalar::default();
    let _ = sk.set_b32(k);
    let mut j = Jacobian::default();
    ECMULT_GEN_CONTEXT.ecmult_gen(&mut j, &sk);
    let mut q = Affine::from_gej(&j);
    if q.is_infinity() { return None; }
    q.x.normalize_var(); q.y.normalize_var();
    Some(AffinePoint { x: q.x.b32(), y: q.y.b32() })
}

/// The tag byte of the compressed SEC1 encoding: 0x02 for an even y,
/// 0x03 for an odd y.
pub open spec fn spec_compressed_tag(y: nat) -> u8 {
    if y % 2 == 1 {
        3u8
    } else {
        2u8
    }
}

/// The 33-byte compressed SEC1 encoding: the parity tag followed by the
/// x coordinate.
pub open spec fn spec_compressed(x: Seq<u8>, y: nat) -> Seq<u8> {
    seq![spec_compressed_tag(y)] + x
}

impl AffinePoint {
    /// The 33-byte compressed SEC1 encoding of this point.
    pub fn to_compressed(&self) -> (out: [u8; 33])
        ensures
            out@ == spec_compressed(self.x@, self.y_nat()),
    {
        let mut out = [0u8; 33];
        out[0] = if self.y[31] % 2 == 1 {
            3u8
        } else {
            2u8
        };
        proof {
            lemma_be_nat_parity(self.y@);
            assert(self.y@.last() == self.y@[31]);
        }
        let mut i: usize = 0;
        while i < 32
            invariant
                i <= 32,
                out@[0] == spec_compressed_tag(self.y_nat()),
                forall|j: int| 0 <= j < i ==> out@[j + 1] == self.x@[j],
            decreases 32 - i,
        {
            out[i + 1] = self.x[i];
            i += 1;
        }
        proof {
            assert(out@ =~= spec_compressed(self.x@, self.y_nat()));
        }
        out
    }

    /// Parses a 33-byte compressed SEC1 encoding.  Succeeds exactly when
    /// the tag is 0x02 or 0x03 and the x coordinate decompresses to a
    /// curve point with that parity; fails with `InvalidEncoding`
    /// otherwise.
    pub fn from_compressed(bytes: &[u8]) -> (r: Result<AffinePoint, crate::Error>)
        ensures
            match r {
                Ok(p) => bytes@.len() == 33 && (bytes@[0] == 2 || bytes@[0] == 3)
                    && spec_decompress(be_nat(bytes@.subrange(1, 33)), bytes@[0] == 3)
                    == Some((p.x_nat(), p.y_nat())),
                Err(e) => e == crate::Error::InvalidEncoding && (bytes@.len() != 33 || (
                bytes@[0] != 2 && bytes@[0] != 3) || spec_decompress(
                    be_nat(bytes@.subrange(1, 33)),
                    bytes@[0] == 3,
                ) is None),
            },
    {
        if bytes.len() != 33 {
            return Err(crate::Error::InvalidEncoding);
        }
        let tag = bytes[0];
        if tag != 2 && tag != 3 {
            return Err(crate::Error::InvalidEncoding);
        }
        let xb = crate::bytes::bytes32_from_slice(bytes, 1);
        match point_decompress(&xb, tag == 3) {
            Some(p) => Ok(p),
            None => Err(crate::Error::InvalidEncoding),
        }
    }
}

} // verus!
