//! Saturating `i32` arithmetic and clamping, as the layout code uses them.
use vstd::prelude::*;

verus! {

/// An `i32` operation's saturating result.
pub open spec fn saturate(v: int) -> int {
    if v > i32::MAX {
        i32::MAX as int
    } else if v < i32::MIN {
        i32::MIN as int
    } else {
        v
    }
}

pub open spec fn clamp(v: int, lo: int, hi: int) -> int {
    if v < lo {
        lo
    } else if v > hi {
        hi
    } else {
        v
    }
}

/// A length that cannot be negative.
pub open spec fn nonnegative(v: i32) -> int {
    if v < 0 {
        0
    } else {
        v as int
    }
}

/// Division by two rounded toward zero.
pub open spec fn half_toward_zero(v: int) -> int {
    if v >= 0 {
        v / 2
    } else {
        -((-v) / 2)
    }
}

/// [`half_toward_zero`], computed.
pub fn half_toward_zero_exec(v: i64) -> (r: i64)
    requires
        v > i64::MIN,
    ensures
        r == half_toward_zero(v as int),
{
    if v >= 0 {
        v / 2
    } else {
        -((-v) / 2)
    }
}

pub fn saturate_exec(v: i64) -> (r: i32)
    ensures
        r == saturate(v as int),
{
    if v > i32::MAX as i64 {
        i32::MAX
    } else if v < i32::MIN as i64 {
        i32::MIN
    } else {
        v as i32
    }
}

/// `a + b`, saturating at the bounds of `i32`.
pub fn sat_add(a: i32, b: i32) -> (r: i32)
    ensures
        r == saturate(a + b),
{
    saturate_exec(a as i64 + b as i64)
}

/// `a - b`, saturating at the bounds of `i32`.
pub fn sat_sub(a: i32, b: i32) -> (r: i32)
    ensures
        r == saturate(a - b),
{
    saturate_exec(a as i64 - b as i64)
}

pub fn clamp_exec(v: i32, lo: i32, hi: i32) -> (r: i32)
    requires
        lo <= hi,
    ensures
        r == clamp(v as int, lo as int, hi as int),
{
    if v < lo {
        lo
    } else if v > hi {
        hi
    } else {
        v
    }
}

} // verus!
