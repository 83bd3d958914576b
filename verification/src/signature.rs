//! The fixed 64-byte ECDSA signature: `r ‖ s`, each a 32-byte big-endian
//! nonzero scalar, with low-S normalization.

use crate::bytes::{be_nat, bytes32_from_slice};
use crate::scalar::{
    group_order, half_order, lemma_order_facts, NonZeroScalar,
};
use crate::Error;
use vstd::arithmetic::div_mod::lemma_small_mod;
use vstd::prelude::*;

verus! {

broadcast use vstd::array::group_array_axioms;

/// 32 bytes that denote a scalar usable as `r` or `s`: nonzero and below
/// the group order.
pub open spec fn valid_scalar_bytes(b: Seq<u8>) -> bool {
    b.len() == 32 && 0 < be_nat(b) < group_order()
}

/// A valid 64-byte signature encoding: both halves are valid scalars.
pub open spec fn valid_signature_bytes(b: Seq<u8>) -> bool {
    b.len() == 64 && valid_scalar_bytes(b.subrange(0, 32)) && valid_scalar_bytes(
        b.subrange(32, 64),
    )
}

/// Low-S normalization on values: a high `s` becomes `n - s`, and the flag
/// records whether the replacement happened.
pub open spec fn spec_normalize_s(s: nat) -> (nat, bool) {
    if s > half_order() {
        ((group_order() - s) as nat, true)
    } else {
        (s, false)
    }
}

/// An ECDSA signature: the pair `(r, s)`, both nonzero scalars.
#[derive(Clone, Copy, Debug, PartialEq, Eq)]
pub struct Signature {
    pub r: NonZeroScalar,
    pub s: NonZeroScalar,
}

impl Signature {
    /// Well-formed: both components are well-formed nonzero scalars.
    pub open spec fn wf(&self) -> bool {
        self.r.wf() && self.s.wf()
    }

    /// `r` as a natural number.
    pub open spec fn r_nat(&self) -> nat {
        self.r.as_nat()
    }

    /// `s` as a natural number.
    pub open spec fn s_nat(&self) -> nat {
        self.s.as_nat()
    }

    /// The 64-byte serialization: `r ‖ s`, big-endian.
    pub open spec fn spec_bytes(&self) -> Seq<u8> {
        self.r.spec_bytes() + self.s.spec_bytes()
    }

    /// Packs two nonzero scalars as a signature.
    pub fn from_scalars(r: &NonZeroScalar, s: &NonZeroScalar) -> (sig: Signature)
        requires
            r.wf(),
            s.wf(),
        ensures
            sig.wf(),
            sig.r == r,
            sig.s == s,
    {
        Signature { r: *r, s: *s }
    }

    /// Parses a byte string; succeeds exactly on a valid 64-byte encoding,
    /// and fails with `InvalidEncoding` otherwise.
    pub fn parse(bytes: &[u8]) -> (result: Result<Signature, Error>)
        ensures
            match result {
                Ok(sig) => valid_signature_bytes(bytes@) && sig.wf() && sig.spec_bytes()
                    == bytes@,
                Err(e) => e == Error::InvalidEncoding && !valid_signature_bytes(bytes@),
            },
    {
        if bytes.len() != 64 {
            return Err(Error::InvalidEncoding);
        }
        let rb = bytes32_from_slice(bytes, 0);
        let sb = bytes32_from_slice(bytes, 32);
        let r = match NonZeroScalar::from_bytes(&rb) {
            Some(r) => r,
            None => {
                return Err(Error::InvalidEncoding);
            },
        };
        let s = match NonZeroScalar::from_bytes(&sb) {
            Some(s) => s,
            None => {
                return Err(Error::InvalidEncoding);
            },
        };
        proof {
            assert(bytes@.subrange(0, 32) + bytes@.subrange(32, 64) =~= bytes@);
        }
        Ok(Signature { r, s })
    }

    /// The 64-byte serialization `r ‖ s`.
    pub fn to_bytes(&self) -> (out: [u8; 64])
        ensures
            out@ == self.spec_bytes(),
    {
        let rb = self.r.to_bytes();
        let sb = self.s.to_bytes();
        let mut out = [0u8; 64];
        let mut i: usize = 0;
        while i < 32
            invariant
                i <= 32,
                forall|j: int| 0 <= j < i ==> out@[j] == rb@[j],
            decreases 32 - i,
        {
            out[i] = rb[i];
            i += 1;
        }
        while i < 64
            invariant
                32 <= i <= 64,
                forall|j: int| 0 <= j < 32 ==> out@[j] == rb@[j],
                forall|j: int| 32 <= j < i ==> out@[j] == sb@[j - 32],
            decreases 64 - i,
        {
            out[i] = sb[i - 32];
            i += 1;
        }
        proof {
            assert(out@ =~= self.spec_bytes());
        }
        out
    }

    /// The `r` component.
    pub fn r(&self) -> (r: NonZeroScalar)
        ensures
            r == self.r,
    {
        self.r
    }

    /// The `s` component.
    pub fn s(&self) -> (s: NonZeroScalar)
        ensures
            s == self.s,
    {
        self.s
    }

    /// Replaces a high `s` (above `(n - 1) / 2`) by `n - s`, in place, and
    /// reports whether the replacement happened.  Afterwards `s` is always
    /// low, so the signature is in the canonical non-malleable form.
    pub fn normalize_s(&mut self) -> (was_high: bool)
        requires
            old(self).wf(),
        ensures
            final(self).wf(),
            final(self).r == old(self).r,
            (final(self).s_nat(), was_high) == spec_normalize_s(old(self).s_nat()),
            final(self).s_nat() <= half_order(),
    {
        let s_scalar = self.s.to_scalar();
        if s_scalar.is_high() {
            let neg = s_scalar.negate();
            proof {
                lemma_order_facts();
                lemma_small_mod((group_order() - old(self).s_nat()) as nat, group_order());
            }
            self.s = NonZeroScalar::new(&neg).unwrap();
            true
        } else {
            false
        }
    }
}

/// Idempotence of low-S normalization: an already-low `s` is left unchanged
/// with no normalization reported, and normalizing twice is the same as
/// normalizing once.
pub proof fn lemma_normalize_s_idempotent(s: nat)
    requires
        0 < s < group_order(),
    ensures
        s <= half_order() ==> spec_normalize_s(s) == (s, false),
        spec_normalize_s(spec_normalize_s(s).0) == (spec_normalize_s(s).0, false),
{
    lemma_order_facts();
}

/// A well-formed signature's serialization is a valid encoding: parsing the
/// bytes written by `to_bytes` always succeeds.
pub proof fn lemma_signature_bytes_valid(sig: Signature)
    requires
        sig.wf(),
    ensures
        valid_signature_bytes(sig.spec_bytes()),
{
    assert(sig.spec_bytes().subrange(0, 32) =~= sig.r.spec_bytes());
    assert(sig.spec_bytes().subrange(32, 64) =~= sig.s.spec_bytes());
}

/// Serialization is injective on well-formed signatures: together with
/// `lemma_signature_bytes_valid` and the contract of `parse`, parsing a
/// signature's bytes and re-serializing yields the original bytes, and the
/// parsed signature is the original one.
pub proof fn lemma_signature_bytes_injective(a: Signature, b: Signature)
    requires
        a.wf(),
        b.wf(),
        a.spec_bytes() == b.spec_bytes(),
    ensures
        a == b,
{
    assert(a.spec_bytes().subrange(0, 32) =~= a.r.spec_bytes());
    assert(a.spec_bytes().subrange(32, 64) =~= a.s.spec_bytes());
    assert(b.spec_bytes().subrange(0, 32) =~= b.r.spec_bytes());
    assert(b.spec_bytes().subrange(32, 64) =~= b.s.spec_bytes());
    assert(a.r.scalar.bytes =~= b.r.scalar.bytes);
    assert(a.s.scalar.bytes =~= b.s.scalar.bytes);
}

} // verus!
