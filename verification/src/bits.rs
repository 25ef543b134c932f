//! Bit-level groundwork: single-bit tests and population count for `u64`
//! words, together with the small lemmas the board model builds on.

use vstd::prelude::*;

verus! {

/// True iff bit `i` of `b` is set (for `i < 64`; higher indices read as 0).
pub open spec fn nth_bit(b: u64, i: u64) -> bool {
    (b >> i) & 1u64 == 1u64
}

/// Number of set bits among the low `n` bit positions of `b`.
pub open spec fn pop_upto(b: u64, n: int) -> nat
    decreases n,
{
    if n <= 0 {
        0
    } else {
        pop_upto(b, n - 1) + (if nth_bit(b, (n - 1) as u64) {
            1nat
        } else {
            0nat
        })
    }
}

/// Number of set bits of `b`.
pub open spec fn pop64(b: u64) -> nat {
    pop_upto(b, 64)
}

/// A prefix population count never exceeds the number of positions scanned.
pub proof fn lemma_pop_upto_bound(b: u64, n: int)
    requires
        0 <= n,
    ensures
        pop_upto(b, n) <= n,
    decreases n,
{
    if n > 0 {
        lemma_pop_upto_bound(b, n - 1);
    }
}

/// A 64-bit word has at most 64 set bits.
pub proof fn lemma_pop64_bound(b: u64)
    ensures
        pop64(b) <= 64,
{
    lemma_pop_upto_bound(b, 64);
}

/// Population count of a `u64`, bit by bit.
pub fn popcount(b: u64) -> (r: u32)
    ensures
        r == pop64(b),
        r <= 64,
{
    let mut r: u32 = 0;
    for i in 0..64u64
        invariant
            r == pop_upto(b, i as int),
            r <= i,
    {
        proof {
            assert((b >> i) & 1u64 == 1u64 || (b >> i) & 1u64 == 0u64) by (bit_vector);
        }
        r = r + ((b >> i) & 1u64) as u32;
    }
    r
}

/// A nonzero word has a set bit.
pub proof fn lemma_nonzero_bit(b: u64)
    requires
        b != 0,
    ensures
        exists|i: u64| i < 64 && #[trigger] nth_bit(b, i),
    decreases b,
{
    if b & 1u64 == 1u64 {
        assert(b >> 0u64 == b) by (bit_vector);
        assert(nth_bit(b, 0));
    } else {
        assert(b & 1u64 != 1u64 && b != 0 ==> b >> 1u64 != 0 && b >> 1u64 < b) by (bit_vector);
        lemma_nonzero_bit(b >> 1u64);
        let j = choose|j: u64| j < 64 && #[trigger] nth_bit(b >> 1u64, j);
        assert(j < 64 && ((b >> 1u64) >> j) & 1u64 == 1u64 ==> ((b >> (j + 1) as u64) & 1u64
            == 1u64 && j + 1 < 64)) by (bit_vector);
        assert(nth_bit(b, (j + 1) as u64));
    }
}

/// A longer prefix never counts fewer bits.
pub proof fn lemma_pop_upto_mono(b: u64, m: int, n: int)
    requires
        m <= n,
    ensures
        pop_upto(b, m) <= pop_upto(b, n),
    decreases n - m,
{
    if m < n {
        lemma_pop_upto_mono(b, m, n - 1);
    }
}

/// A run of set bits contributes its full length to the prefix count.
pub proof fn lemma_pop_upto_run(b: u64, m: int, n: int)
    requires
        0 <= m <= n,
        forall|k: int| m <= k < n ==> #[trigger] nth_bit(b, k as u64),
    ensures
        pop_upto(b, n) >= pop_upto(b, m) + (n - m),
    decreases n - m,
{
    if m < n {
        lemma_pop_upto_run(b, m, n - 1);
        assert(nth_bit(b, (n - 1) as u64));
    }
}

/// A one-bit word's trailing-zero count is the index of its bit.
pub proof fn lemma_pow2_trailing_zeros(j: u64)
    requires
        j < 64,
    ensures
        vstd::std_specs::bits::u64_trailing_zeros(1u64 << j) == j,
{
    vstd::std_specs::bits::axiom_u64_trailing_zeros(1u64 << j);
    assert(j < 64 ==> 1u64 << j != 0) by (bit_vector);
    let t = vstd::std_specs::bits::u64_trailing_zeros(1u64 << j) as u64;
    assert(t < 64 && j < 64 && ((1u64 << j) >> t) & 1u64 == 1u64 ==> t == j) by (bit_vector);
}

/// Setting one bit adds it and nothing else to a prefix count.
proof fn lemma_pop_upto_set_bit(b: u64, i: u64, n: int)
    requires
        i < 64,
        !nth_bit(b, i),
        0 <= n <= 64,
    ensures
        pop_upto(b | (1u64 << i), n) == pop_upto(b, n) + (if i < n {
            1int
        } else {
            0int
        }),
    decreases n,
{
    if n > 0 {
        lemma_pop_upto_set_bit(b, i, n - 1);
        let k = (n - 1) as u64;
        assert(i < 64 && k < 64 ==> nth_bit(b | (1u64 << i), k) == (nth_bit(b, k) || k == i))
            by (bit_vector);
    }
}

/// Setting a clear bit raises the population count by exactly one.
pub proof fn lemma_pop_set_bit(b: u64, i: u64)
    requires
        i < 64,
        !nth_bit(b, i),
    ensures
        pop64(b | (1u64 << i)) == pop64(b) + 1,
{
    lemma_pop_upto_set_bit(b, i, 64);
}

} // verus!
