//! The parameter of the BLS12-381 family member, which fixes the schedule
//! of the Miller loop.

use vstd::prelude::*;

verus! {

/// The absolute value of the curve parameter.
pub const BLS_X: u64 = 0xd201000000010000;

/// The curve parameter is negative.
pub const BLS_X_IS_NEGATIVE: bool = true;

/// The number of loop steps: one for each bit of `BLS_X` below its leading
/// bit.
pub const LOOP_STEPS: usize = 63;

/// The bits of `BLS_X` from the most significant down, without the leading
/// one: `loop_bit(0)` is bit 62 and `loop_bit(62)` is bit 0.
pub open spec fn loop_bit(i: int) -> bool {
    0 <= i < 63 && (BLS_X >> ((62 - i) as u64)) & 1 == 1
}

/// The leading bit of `BLS_X` is its bit 63, so the schedule that skips the
/// leading bit has `LOOP_STEPS` steps whether or not leading zeros are
/// dropped first.
pub proof fn lemma_leading_bit()
    ensures
        (BLS_X >> 63) & 1 == 1,
{
    assert((0xd201000000010000u64 >> 63) & 1 == 1) by (bit_vector);
}

/// Bit `i` of the schedule.
pub fn loop_bit_at(i: usize) -> (r: bool)
    requires
        i < LOOP_STEPS,
    ensures
        r == loop_bit(i as int),
{
    let shift: u64 = 62 - i as u64;
    (BLS_X >> shift) & 1 == 1
}

} // verus!
