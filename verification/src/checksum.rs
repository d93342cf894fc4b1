//! The protocol checksum: the sum of all byte values, reduced modulo 256.

use vstd::prelude::*;

verus! {

/// The arithmetic sum of every byte in `s`.
pub open spec fn byte_sum(s: Seq<u8>) -> int
    decreases s.len(),
{
    if s.len() == 0 {
        0
    } else {
        byte_sum(s.drop_last()) + s.last()
    }
}

/// The checksum of `s`: the byte sum reduced modulo 256.
pub open spec fn checksum_of(s: Seq<u8>) -> int {
    byte_sum(s) % 256
}

/// The byte sum of a sequence is never negative.
pub proof fn lemma_byte_sum_nonneg(s: Seq<u8>)
    ensures
        byte_sum(s) >= 0,
    decreases s.len(),
{
    if s.len() > 0 {
        lemma_byte_sum_nonneg(s.drop_last());
    }
}

/// Extending a sequence by one byte adds that byte to the sum.
pub proof fn lemma_byte_sum_take_step(s: Seq<u8>, i: int)
    requires
        0 <= i < s.len(),
    ensures
        byte_sum(s.take(i + 1)) == byte_sum(s.take(i)) + s[i],
{
    assert(s.take(i + 1).drop_last() =~= s.take(i));
    assert(s.take(i + 1).last() == s[i]);
}

/// The checksum of the empty byte sequence is zero.
pub proof fn lemma_checksum_empty()
    ensures
        checksum_of(Seq::<u8>::empty()) == 0,
{
}

/// Compute the checksum over `bytes`.
pub fn compute_checksum(bytes: &[u8]) -> (r: u8)
    ensures
        r == checksum_of(bytes@),
{
    let n = bytes.len();
    let mut sum: u32 = 0;
    let mut i: usize = 0;
    proof {
        assert(bytes@.take(0) =~= Seq::<u8>::empty());
    }
    while i < n
        invariant
            n == bytes@.len(),
            0 <= i <= n,
            sum == checksum_of(bytes@.take(i as int)),
            sum < 256,
        decreases n - i,
    {
        proof {
            lemma_byte_sum_take_step(bytes@, i as int);
            lemma_byte_sum_nonneg(bytes@.take(i as int));
        }
        sum = (sum + bytes[i] as u32) % 256;
        i = i + 1;
    }
    proof {
        assert(bytes@.take(n as int) =~= bytes@);
    }
    sum as u8
}

} // verus!
