//! The fingerprint by which the editor notices that a bore geometry changed:
//! a multiplicative hash over the bit patterns of the points' coordinates.

use vstd::prelude::*;

verus! {

/// The odd multiplier of the fingerprint.
pub const FINGERPRINT_MULTIPLIER: u64 = 0x517cc1b727265a95;

/// One step of the fingerprint: the hash so far times the multiplier, plus
/// the next bit pattern, both modulo 2^64.
pub open spec fn fingerprint_step(h: u64, bits: u64) -> u64 {
    vstd::wrapping::u64_specs::wrapping_add(
        vstd::wrapping::u64_specs::wrapping_mul(h, FINGERPRINT_MULTIPLIER),
        bits,
    )
}

/// The fingerprint of a sequence of bit patterns, folded from the left
/// starting at 0.
pub open spec fn fingerprint(bits: Seq<u64>) -> u64
    decreases bits.len(),
{
    if bits.len() == 0 {
        0
    } else {
        fingerprint_step(fingerprint(bits.drop_last()), bits.last())
    }
}

/// The fingerprint of a geometry given as the bit patterns of its
/// coordinates, point by point (position, then diameter).
pub fn geo_hash(bits: &Vec<u64>) -> (h: u64)
    ensures
        h == fingerprint(bits@),
{
    let mut h: u64 = 0;
    let mut i: usize = 0;
    while i < bits.len()
        invariant
            i <= bits@.len(),
            h == fingerprint(bits@.subrange(0, i as int)),
        decreases bits@.len() - i,
    {
        assert(bits@.subrange(0, i as int + 1).drop_last() =~= bits@.subrange(0, i as int));
        h = h.wrapping_mul(FINGERPRINT_MULTIPLIER).wrapping_add(bits[i]);
        i += 1;
    }
    assert(bits@.subrange(0, i as int) =~= bits@);
    h
}

} // verus!
