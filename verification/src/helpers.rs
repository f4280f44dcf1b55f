//! Small numeric helpers for positions that wrap around a range.

use vstd::prelude::*;

verus! {

/// Bound on the inputs of the wrap helpers so their sums stay inside `i64`.
pub const WRAP_INPUT_BOUND: i64 = 0x2000_0000_0000_0000;

#[derive(Debug, Copy, Clone, PartialEq, Eq, Structural)]
pub enum WrapResult {
    NoWrap,
    Underflow,
    Overflow,
}

/// Fold a value that overshot `[min, max]` back by one range width.
/// A value further out than one width from the range stays out of it.
pub fn wrap(val: i64, min: i64, max: i64) -> (r: i64)
    requires
        -WRAP_INPUT_BOUND <= val <= WRAP_INPUT_BOUND,
        -WRAP_INPUT_BOUND <= min <= WRAP_INPUT_BOUND,
        -WRAP_INPUT_BOUND <= max <= WRAP_INPUT_BOUND,
    ensures
        val < min ==> r == max + (val - min),
        val >= min && val > max ==> r == min + (val - max),
        min <= val <= max ==> r == val,
{
    if val < min {
        max + (val - min)
    } else if val > max {
        min + (val - max)
    } else {
        val
    }
}

/// Like [`wrap`], also telling which side the value left the range on.
pub fn wrap_with_info(val: i64, min: i64, max: i64) -> (r: (i64, WrapResult))
    requires
        -WRAP_INPUT_BOUND <= val <= WRAP_INPUT_BOUND,
        -WRAP_INPUT_BOUND <= min <= WRAP_INPUT_BOUND,
        -WRAP_INPUT_BOUND <= max <= WRAP_INPUT_BOUND,
    ensures
        val < min ==> r == ((max + (val - min)) as i64, WrapResult::Underflow),
        val >= min && val > max ==> r == ((min + (val - max)) as i64, WrapResult::Overflow),
        min <= val <= max ==> r == (val, WrapResult::NoWrap),
{
    if val < min {
        (max + (val - min), WrapResult::Underflow)
    } else if val > max {
        (min + (val - max), WrapResult::Overflow)
    } else {
        (val, WrapResult::NoWrap)
    }
}

} // verus!
