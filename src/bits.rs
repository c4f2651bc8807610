use vstd::prelude::*;

verus! {

/// Whether square `i` is set in the bitboard `x`.
pub open spec fn bit(x: u64, i: int) -> bool {
    (x >> (i as u64)) & 1 == 1
}

/// Number of set squares of `x` at index `i` or above.
pub open spec fn popcount_from(x: u64, i: int) -> nat
    decreases 64 - i,
{
    if i >= 64 || i < 0 {
        0
    } else {
        (if bit(x, i) { 1nat } else { 0nat }) + popcount_from(x, i + 1)
    }
}

/// Number of set squares of `x`.
pub open spec fn popcount(x: u64) -> nat {
    popcount_from(x, 0)
}

/// `x` with its eight bytes in reverse order: rank `r` goes to rank `7 - r`.
pub open spec fn byte_swap(x: u64) -> u64 {
    (x << 56u64) | ((x << 40u64) & 0x00ff_0000_0000_0000u64) | ((x << 24u64)
        & 0x0000_ff00_0000_0000u64) | ((x << 8u64) & 0x0000_00ff_0000_0000u64) | ((x >> 8u64)
        & 0x0000_0000_ff00_0000u64) | ((x >> 24u64) & 0x0000_0000_00ff_0000u64) | ((x >> 40u64)
        & 0x0000_0000_0000_ff00u64) | (x >> 56u64)
}

pub proof fn lemma_popcount_from_bound(x: u64, i: int)
    requires
        0 <= i <= 64,
    ensures
        popcount_from(x, i) <= 64 - i,
    decreases 64 - i,
{
    if i < 64 {
        lemma_popcount_from_bound(x, i + 1);
    }
}

pub proof fn lemma_popcount_bound(x: u64)
    ensures
        popcount(x) <= 64,
{
    lemma_popcount_from_bound(x, 0);
}

pub proof fn lemma_zero_bit(i: u64)
    by (bit_vector)
    ensures
        (0u64 >> i) & 1 != 1,
{
}

pub proof fn lemma_popcount_from_zero(i: int)
    requires
        0 <= i <= 64,
    ensures
        popcount_from(0, i) == 0,
    decreases 64 - i,
{
    if i < 64 {
        lemma_zero_bit(i as u64);
        lemma_popcount_from_zero(i + 1);
    }
}

/// An empty bitboard has no set square.
pub proof fn lemma_popcount_zero()
    ensures
        popcount(0) == 0,
{
    lemma_popcount_from_zero(0);
}

/// Relies on `u64::count_ones`: the number of one bits of its argument.
#[verifier::external_body]
pub(crate) fn count(x: u64) -> (r: u32)
    ensures
        r == popcount(x),
{
    x.count_ones()
}

/// Relies on `u64::swap_bytes`: the byte order of its argument reversed.
#[verifier::external_body]
pub(crate) fn swap(x: u64) -> (r: u64)
    ensures
        r == byte_swap(x),
{
    x.swap_bytes()
}

} // verus!
