//! Big-endian byte strings as natural numbers.
//!
//! Scalars and field elements cross the wire as fixed 32-byte big-endian
//! strings.  `be_nat` is the mathematical reading of such a string; the
//! lemmas here connect byte-level operations (comparison, zero tests,
//! copying) to that reading.

use vstd::arithmetic::div_mod::lemma_mod_multiples_vanish;
use vstd::prelude::*;

verus! {

/// The natural number denoted by a big-endian byte string.
pub open spec fn be_nat(s: Seq<u8>) -> nat
    decreases s.len(),
{
    if s.len() == 0 {
        0
    } else {
        be_nat(s.drop_last()) * 256 + s.last() as nat
    }
}

/// A byte string denotes zero exactly when every byte is zero.
pub proof fn lemma_be_nat_zero(s: Seq<u8>)
    ensures
        be_nat(s) == 0 <==> (forall|i: int| 0 <= i < s.len() ==> s[i] == 0),
    decreases s.len(),
{
    if s.len() > 0 {
        lemma_be_nat_zero(s.drop_last());
        if be_nat(s) == 0 {
            assert(be_nat(s.drop_last()) == 0 && s.last() == 0);
            assert forall|i: int| 0 <= i < s.len() implies s[i] == 0 by {
                if i < s.len() - 1 {
                    assert(s.drop_last()[i] == 0);
                }
            }
        }
        if forall|i: int| 0 <= i < s.len() ==> s[i] == 0 {
            assert forall|i: int| 0 <= i < s.drop_last().len() implies s.drop_last()[i]
                == 0 by {
                assert(s.drop_last()[i] == s[i]);
            }
            assert(be_nat(s.drop_last()) == 0);
            assert(s.last() == 0);
        }
    }
}

/// Equal-length byte strings denoting the same number are equal:
/// the big-endian reading is injective at a fixed length.
pub proof fn lemma_be_nat_injective(a: Seq<u8>, b: Seq<u8>)
    requires
        a.len() == b.len(),
        be_nat(a) == be_nat(b),
    ensures
        a =~= b,
    decreases a.len(),
{
    if a.len() > 0 {
        assert(be_nat(a.drop_last()) * 256 + a.last() == be_nat(b.drop_last()) * 256
            + b.last());
        assert(be_nat(a.drop_last()) == be_nat(b.drop_last()) && a.last() == b.last());
        lemma_be_nat_injective(a.drop_last(), b.drop_last());
        assert forall|i: int| 0 <= i < a.len() implies a[i] == b[i] by {
            if i < a.len() - 1 {
                assert(a[i] == a.drop_last()[i]);
                assert(b[i] == b.drop_last()[i]);
            } else {
                assert(a[i] == a.last() && b[i] == b.last());
            }
        }
    }
}

/// A byte string's number is odd exactly when its last byte is odd.
pub proof fn lemma_be_nat_parity(s: Seq<u8>)
    requires
        s.len() > 0,
    ensures
        be_nat(s) % 2 == s.last() % 2,
{
    let p = be_nat(s.drop_last());
    assert(p * 256 == 2 * (p * 128));
    lemma_mod_multiples_vanish(p * 128 as int, s.last() as int, 2);
    assert((2 * (p * 128) + s.last()) % 2 == s.last() % 2);
}

/// Copies 32 bytes out of a slice, starting at `start`.
pub fn bytes32_from_slice(b: &[u8], start: usize) -> (r: [u8; 32])
    requires
        start + 32 <= b@.len(),
    ensures
        r@ == b@.subrange(start as int, start as int + 32),
{
    let blen: usize = b.len();
    let mut out = [0u8; 32];
    let mut i: usize = 0;
    while i < 32
        invariant
            start + 32 <= blen == b@.len(),
            i <= 32,
            forall|j: int| 0 <= j < i ==> out@[j] == b@[start + j],
        decreases 32 - i,
    {
        out[i] = b[start + i];
        i += 1;
    }
    proof {
        assert(out@ =~= b@.subrange(start as int, start as int + 32));
    }
    out
}

/// Byte-for-byte equality of two 32-byte strings.
pub fn bytes32_eq(a: &[u8; 32], b: &[u8; 32]) -> (r: bool)
    ensures
        r <==> a@ == b@,
{
    let mut i: usize = 0;
    while i < 32
        invariant
            i <= 32,
            forall|j: int| 0 <= j < i ==> a@[j] == b@[j],
        decreases 32 - i,
    {
        if a[i] != b[i] {
            return false;
        }
        i += 1;
    }
    proof {
        assert(a@ =~= b@);
    }
    true
}

/// Byte-for-byte equality of two byte strings.
pub fn bytes_eq(a: &[u8], b: &[u8]) -> (r: bool)
    ensures
        r <==> a@ == b@,
{
    if a.len() != b.len() {
        return false;
    }
    let n = a.len();
    let mut i: usize = 0;
    while i < n
        invariant
            n == a@.len() == b@.len(),
            i <= n,
            forall|j: int| 0 <= j < i ==> a@[j] == b@[j],
        decreases n - i,
    {
        if a[i] != b[i] {
            return false;
        }
        i += 1;
    }
    proof {
        assert(a@ =~= b@);
    }
    true
}

/// Tests whether a 32-byte string denotes zero.
pub fn bytes32_is_zero(a: &[u8; 32]) -> (r: bool)
    ensures
        r <==> be_nat(a@) == 0,
{
    let mut i: usize = 0;
    let mut all_zero: bool = true;
    while i < 32
        invariant
            i <= 32,
            all_zero <==> (forall|j: int| 0 <= j < i ==> a@[j] == 0),
        decreases 32 - i,
    {
        if a[i] != 0 {
            all_zero = false;
        }
        i += 1;
    }
    proof {
        lemma_be_nat_zero(a@);
    }
    all_zero
}

} // verus!
