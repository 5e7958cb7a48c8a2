//! Machine numbers.
use vstd::prelude::*;

verus! {

/// A machine number without sign, read with one.
pub open spec fn wrap_i32(value: nat) -> i32 {
    if value > i32::MAX {
        (value - 0x1_0000_0000) as i32
    } else {
        value as i32
    }
}

/// Reads a number without sign as one with a sign.
pub fn to_wrapped_i32(value: u32) -> (result: i32)
    ensures
        result == wrap_i32(value as nat),
{
    if value > 0x7fff_ffff {
        (value as i64 - 0x1_0000_0000) as i32
    } else {
        value as i32
    }
}

/// The number after this one, held at the largest machine number.
pub open spec fn next_u64(value: nat) -> u64 {
    if value >= u64::MAX {
        u64::MAX
    } else {
        (value + 1) as u64
    }
}

/// The number after this one, held at the largest machine number.
pub fn to_next_u64(value: usize) -> (result: u64)
    ensures
        result == next_u64(value as nat),
{
    let wide: u64 = value as u64;
    if wide == u64::MAX {
        wide
    } else {
        wide + 1
    }
}

} // verus!
