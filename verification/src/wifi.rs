//! What the wireless link needs from this side.

use vstd::prelude::*;

verus! {

/// The seed of the network stack made of two random words: the first is its
/// upper half, the second its lower half.
pub open spec fn seed_of(high: u32, low: u32) -> int {
    high * 0x1_0000_0000 + low
}

/// Makes the seed of the network stack from two random words.
pub fn seed(high: u32, low: u32) -> (s: u64)
    ensures
        s == seed_of(high, low),
{
    let wide_high: u64 = high as u64;
    let wide_low: u64 = low as u64;
    assert((wide_high << 32u64) | wide_low == wide_high * 0x1_0000_0000 + wide_low) by (bit_vector)
        requires
            wide_high <= 0xffff_ffffu64,
            wide_low <= 0xffff_ffffu64,
    ;
    (wide_high << 32u64) | wide_low
}

} // verus!
