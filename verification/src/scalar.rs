//! Scalars modulo the secp256k1 group order.
//!
//! A [`Scalar`] is an integer modulo the curve order `n`, held in its
//! canonical 32-byte big-endian form.  A [`NonZeroScalar`] additionally
//! carries the invariant that the value is not zero; it is the type used
//! for `r`, `s` and private keys.
//!
//! The modular arithmetic itself is done by `libsecp256k1`'s scalar type
//! behind trusted wrappers; each wrapper's contract states the exact
//! modular identity that the outside code computes.

use crate::bytes::{be_nat, bytes32_is_zero, lemma_be_nat_injective, lemma_be_nat_parity};
use vstd::arithmetic::div_mod::{
    lemma_mod_bound, lemma_mod_multiples_vanish, lemma_mul_mod_noop_left,
    lemma_mul_mod_noop_right, lemma_small_mod,
};
use vstd::prelude::*;

verus! {

/// The order `n` of the secp256k1 group:
/// 0xFFFFFFFF FFFFFFFF FFFFFFFF FFFFFFFE BAAEDCE6 AF48A03B BFD25E8C D0364141.
pub open spec fn group_order() -> nat {
    0xFFFFFFFFFFFFFFFFFFFFFFFFFFFFFFFEBAAEDCE6AF48A03BBFD25E8CD0364141nat
}

/// `(n - 1) / 2`: a scalar above this bound is "high", and a signature
/// whose `s` exceeds it is malleable.
pub open spec fn half_order() -> nat {
    0x7FFFFFFFFFFFFFFFFFFFFFFFFFFFFFFF5D576E7357A4501DDFE92F46681B20A0nat
}

/// Basic numeric facts about the group order, checked on the literals.
pub proof fn lemma_order_facts()
    ensures
        group_order() == 2 * half_order() + 1,
        group_order() % 2 == 1,
        2 < group_order(),
{
}

/// Addition modulo the group order.
pub open spec fn add_n(a: nat, b: nat) -> nat {
    (a + b) % group_order()
}

/// Multiplication modulo the group order.
pub open spec fn mul_n(a: nat, b: nat) -> nat {
    (a * b) % group_order()
}

/// Negation modulo the group order.
pub open spec fn neg_n(a: nat) -> nat {
    ((group_order() - a) % (group_order() as int)) as nat
}

/// The multiplicative inverse of `a` modulo the group order, where one
/// exists; `lemma_inv_mod_unique` shows it is unique below the order.
pub open spec fn inv_mod(a: nat) -> nat {
    choose|x: nat| x < group_order() && #[trigger] ((a * x) % group_order()) == 1
}

/// A modular inverse below the order is unique.
pub proof fn lemma_inv_mod_unique(a: nat, x: nat, y: nat)
    requires
        x < group_order(),
        y < group_order(),
        (a * x) % group_order() == 1,
        (a * y) % group_order() == 1,
    ensures
        x == y,
{
    let n = group_order() as int;
    let ai = a as int;
    let xi = x as int;
    let yi = y as int;
    assert(xi * (ai * yi) == (ai * xi) * yi && yi * (ai * xi) == (ai * yi) * xi)
        by (nonlinear_arith);
    lemma_mul_mod_noop_right(xi, ai * yi, n);
    lemma_mul_mod_noop_left(ai * xi, yi, n);
    lemma_mul_mod_noop_right(yi, ai * xi, n);
    lemma_mul_mod_noop_left(ai * yi, xi, n);
    lemma_small_mod(x, group_order());
    lemma_small_mod(y, group_order());
    assert(xi == xi * 1 && yi == yi * 1);
    assert(xi % n == (1 * yi) % n);
    assert(yi == 1 * yi && xi == 1 * xi);
}

/// Relies on `libsecp256k1::curve::Scalar::set_b32` (and `b32`): the byte
/// string is read big-endian and reduced modulo the group order, and the
/// returned flag says whether the input was at or above the order.
#[verifier::external_body]
fn scalar_reduce_bytes(b: &[u8; 32]) -> (r: ([u8; 32], bool))
    ensures
        be_nat(r.0@) == be_nat(b@) % group_order(),
        r.1 <==> be_nat(b@) >= group_order(),
{
    let mut s = libsecp256k1::curve::Scalar::default();
    let overflow = s.set_b32(b);
    (s.b32(), overflow.into())
}

/// Relies on `libsecp256k1::curve::Scalar`'s `Add`: addition modulo the
/// group order.
#[verifier::external_body]
fn scalar_add_bytes(a: &[u8; 32], b: &[u8; 32]) -> (r: [u8; 32])
    requires
        be_nat(a@) < group_order(),
        be_nat(b@) < group_order(),
    ensures
        be_nat(r@) == (be_nat(a@) + be_nat(b@)) % group_order(),
{
    let mut x = libsecp256k1::curve::Scalar::default();
    let _ = x.set_b32(a);
    let mut y = libsecp256k1::curve::Scalar::default();
    let _ = y.set_b32(b);
    (x + y).b32()
}

/// Relies on `libsecp256k1::curve::Scalar`'s `Mul`: multiplication modulo
/// the group order.
#[verifier::external_body]
fn scalar_mul_bytes(a: &[u8; 32], b: &[u8; 32]) -> (r: [u8; 32])
    requires
        be_nat(a@) < group_order(),
        be_nat(b@) < group_order(),
    ensures
        be_nat(r@) == (be_nat(a@) * be_nat(b@)) % group_order(),
{
    let mut x = libsecp256k1::curve::Scalar::default();
    let _ = x.set_b32(a);
    let mut y = libsecp256k1::curve::Scalar::default();
    let _ = y.set_b32(b);
    (x * y).b32()
}

/// Relies on `libsecp256k1::curve::Scalar`'s `Neg` (`cond_neg_assign`):
/// `n - a` for nonzero `a`, zero for zero, i.e. `(n - a) % n`.
#[verifier::external_body]
fn scalar_neg_bytes(a: &[u8; 32]) -> (r: [u8; 32])
    requires
        be_nat(a@) < group_order(),
    ensures
        be_nat(r@) == (group_order() - be_nat(a@)) % (group_order() as int),
{
    let mut x = libsecp256k1::curve::Scalar::default();
    let _ = x.set_b32(a);
    (-x).b32()
}

/// Relies on `libsecp256k1::curve::Scalar::inv`: the multiplicative
/// inverse modulo the group order for a nonzero input (computed by
/// Fermat exponentiation, so the product with the input is 1 mod n).
#[verifier::external_body]
fn scalar_inv_bytes(a: &[u8; 32]) -> (r: [u8; 32])
    requires
        0 < be_nat(a@) < group_order(),
    ensures
        be_nat(r@) < group_order(),
        (be_nat(a@) * be_nat(r@)) % group_order() == 1,
{
    let mut x = libsecp256k1::curve::Scalar::default();
    let _ = x.set_b32(a);
    x.inv().b32()
}

/// An integer modulo the group order, in canonical 32-byte big-endian form.
#[derive(Clone, Copy, Debug, PartialEq, Eq)]
pub struct Scalar {
    pub bytes: [u8; 32],
}

impl Scalar {
    /// The canonical big-endian serialization.
    pub open spec fn spec_bytes(&self) -> Seq<u8> {
        self.bytes@
    }

    /// The scalar as a natural number.
    pub open spec fn as_nat(&self) -> nat {
        be_nat(self.bytes@)
    }

    /// Well-formed: the canonical form denotes a value below the order.
    pub open spec fn wf(&self) -> bool {
        self.as_nat() < group_order()
    }

    /// Reduces a 32-byte big-endian value (for example a message digest,
    /// or a field element's serialization) into the scalar field.
    pub fn from_bytes_reduced(b: &[u8; 32]) -> (r: Scalar)
        ensures
            r.wf(),
            r.as_nat() == be_nat(b@) % group_order(),
    {
        let (rb, _) = scalar_reduce_bytes(b);
        proof {
            lemma_mod_bound(be_nat(b@) as int, group_order() as int);
        }
        Scalar { bytes: rb }
    }

    /// The canonical 32 bytes.
    pub fn to_bytes(&self) -> (r: [u8; 32])
        ensures
            r@ == self.spec_bytes(),
    {
        self.bytes
    }

    /// Whether the value is zero (a scan of the canonical bytes).
    pub fn is_zero(&self) -> (r: bool)
        ensures
            r <==> self.as_nat() == 0,
    {
        bytes32_is_zero(&self.bytes)
    }

    /// Whether the value exceeds `(n - 1) / 2`.  Decided in verified
    /// code: since the order `n` is odd, `2s mod n` is even exactly when
    /// `s` is low (no reduction happened) and odd exactly when `s` is
    /// high (one subtraction of the odd `n` happened).
    pub fn is_high(&self) -> (r: bool)
        requires
            self.wf(),
        ensures
            r <==> self.as_nat() > half_order(),
    {
        let doubled = self.add_mod(self);
        let db = doubled.to_bytes();
        proof {
            lemma_order_facts();
            let s = self.as_nat() as int;
            let n = group_order() as int;
            let h = half_order() as int;
            lemma_be_nat_parity(db@);
            assert(db@.last() == db@[31]);
            assert(doubled.as_nat() == (2 * s) % n);
            if s <= h {
                lemma_small_mod((2 * s) as nat, group_order());
                lemma_mod_multiples_vanish(s, 0, 2);
                assert((2 * s) % 2 == 0);
            } else {
                lemma_mod_multiples_vanish(-1, 2 * s, n);
                assert((2 * s - n) % n == (2 * s) % n);
                lemma_small_mod((2 * s - n) as nat, group_order());
                assert(2 * s - n == 2 * (s - h - 1) + 1);
                lemma_mod_multiples_vanish(s - h - 1, 1, 2);
                assert((2 * s - n) % 2 == 1);
            }
        }
        db[31] % 2 == 1
    }

    /// Addition modulo the group order.
    pub fn add_mod(&self, other: &Scalar) -> (r: Scalar)
        requires
            self.wf(),
            other.wf(),
        ensures
            r.wf(),
            r.as_nat() == (self.as_nat() + other.as_nat()) % group_order(),
    {
        let rb = scalar_add_bytes(&self.bytes, &other.bytes);
        proof {
            lemma_mod_bound((self.as_nat() + other.as_nat()) as int, group_order() as int);
        }
        Scalar { bytes: rb }
    }

    /// Multiplication modulo the group order.
    pub fn mul_mod(&self, other: &Scalar) -> (r: Scalar)
        requires
            self.wf(),
            other.wf(),
        ensures
            r.wf(),
            r.as_nat() == (self.as_nat() * other.as_nat()) % group_order(),
    {
        let rb = scalar_mul_bytes(&self.bytes, &other.bytes);
        proof {
            lemma_mod_bound((self.as_nat() * other.as_nat()) as int, group_order() as int);
        }
        Scalar { bytes: rb }
    }

    /// Negation modulo the group order.
    pub fn negate(&self) -> (r: Scalar)
        requires
            self.wf(),
        ensures
            r.wf(),
            r.as_nat() == (group_order() - self.as_nat()) % (group_order() as int),
    {
        let rb = scalar_neg_bytes(&self.bytes);
        proof {
            lemma_mod_bound(group_order() as int - self.as_nat() as int, group_order() as int);
        }
        Scalar { bytes: rb }
    }

    /// The multiplicative inverse of a nonzero scalar.
    pub fn invert(&self) -> (r: Scalar)
        requires
            self.wf(),
            self.as_nat() != 0,
        ensures
            r.wf(),
            r.as_nat() == inv_mod(self.as_nat()),
            (self.as_nat() * r.as_nat()) % group_order() == 1,
    {
        let rb = scalar_inv_bytes(&self.bytes);
        proof {
            let w = be_nat(rb@);
            assert(w < group_order() && (self.as_nat() * w) % group_order() == 1);
            let c = inv_mod(self.as_nat());
            assert(c < group_order() && (self.as_nat() * c) % group_order() == 1);
            lemma_inv_mod_unique(self.as_nat(), w, c);
        }
        Scalar { bytes: rb }
    }
}

/// A scalar with the additional invariant that its value is not zero,
/// enforced at construction.
#[derive(Clone, Copy, Debug, PartialEq, Eq)]
pub struct NonZeroScalar {
    pub scalar: Scalar,
}

impl NonZeroScalar {
    /// The canonical big-endian serialization.
    pub open spec fn spec_bytes(&self) -> Seq<u8> {
        self.scalar.spec_bytes()
    }

    /// The scalar as a natural number.
    pub open spec fn as_nat(&self) -> nat {
        self.scalar.as_nat()
    }

    /// Well-formed: a nonzero value below the order.
    pub open spec fn wf(&self) -> bool {
        self.scalar.wf() && self.as_nat() != 0
    }

    /// Parses 32 big-endian bytes; succeeds exactly when they denote a
    /// nonzero value below the group order.
    pub fn from_bytes(b: &[u8; 32]) -> (r: Option<NonZeroScalar>)
        ensures
            match r {
                Some(s) => s.wf() && s.spec_bytes() == b@ && 0 < be_nat(b@) < group_order(),
                None => be_nat(b@) == 0 || be_nat(b@) >= group_order(),
            },
    {
        let (rb, overflow) = scalar_reduce_bytes(b);
        if overflow {
            return None;
        }
        proof {
            lemma_small_mod(be_nat(b@), group_order());
            lemma_be_nat_injective(rb@, b@);
        }
        if bytes32_is_zero(&rb) {
            return None;
        }
        Some(NonZeroScalar { scalar: Scalar { bytes: rb } })
    }

    /// Wraps a scalar that is known, or found, to be nonzero.
    pub fn new(s: &Scalar) -> (r: Option<NonZeroScalar>)
        requires
            s.wf(),
        ensures
            match r {
                Some(z) => z.wf() && z.scalar == s && s.as_nat() != 0,
                None => s.as_nat() == 0,
            },
    {
        if s.is_zero() {
            None
        } else {
            Some(NonZeroScalar { scalar: *s })
        }
    }

    /// The underlying scalar.
    pub fn to_scalar(&self) -> (r: Scalar)
        ensures
            r == self.scalar,
    {
        self.scalar
    }

    /// The canonical 32 bytes.
    pub fn to_bytes(&self) -> (r: [u8; 32])
        ensures
            r@ == self.spec_bytes(),
    {
        self.scalar.to_bytes()
    }
}

} // verus!
