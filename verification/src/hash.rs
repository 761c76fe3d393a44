//! The hash that spreads the seeds of the workers.

use vstd::prelude::*;

verus! {

/// What a hash becomes when a 32-bit word is added to it: rotated, mixed with the word, and
/// multiplied.
pub open spec fn fx_round(hash: u32, word: u32) -> u32 {
    (((((hash << 5u32) | (hash >> 27u32)) ^ word) * 0x9e37_79b9) % 0x1_0000_0000) as u32
}

/// The hash of a machine word: that of its low 32 bits, and then of its high ones if it has more.
pub open spec fn fxhash32_usize(value: usize) -> u32 {
    let low = fx_round(0x517c_c1b7, (value as int % 0x1_0000_0000) as u32);
    if usize::BITS == 64 {
        fx_round(low, (value as int / 0x1_0000_0000) as u32)
    } else {
        low
    }
}

/// Hashes a machine word, such as an address, with `sti::hash::fxhash::fxhash32`. It feeds the word
/// to a hasher that starts in the same state each time, 32 bits at a time, the low ones first.
#[verifier::external_body]
pub(crate) fn fxhash32(value: usize) -> (hash: u32)
    ensures
        hash == fxhash32_usize(value),
{
    sti::hash::fxhash::fxhash32(&value)
}

} // verus!
