//! Fixed-point scalar arithmetic for the renderer.
//!
//! World coordinates, camera-space coordinates, trigonometric values and
//! movement speeds are all stored as `i64` multiples of `1/FP_ONE`. The one
//! rounding operation the pipeline uses is division by a positive scalar,
//! rounded toward zero, exactly as Rust's `/` rounds.

use vstd::prelude::*;
use vstd::arithmetic::div_mod::{
    lemma_div_is_ordered, lemma_div_is_ordered_by_denominator, lemma_div_nonincreasing,
    lemma_div_pos_is_pos,
};

verus! {

/// One world unit in the fixed-point encoding.
pub const FP_ONE: i64 = 256;

/// How far from the origin world geometry and the camera may sit, in
/// fixed-point units: the bound the pipeline's overflow arguments rest on.
pub const WORLD_LIMIT: i64 = 0x10_0000;

/// The bound camera-space coordinates reach after translation and two
/// rotations of world geometry within `WORLD_LIMIT`.
pub const CAM_LIMIT: i64 = 0x80_0000;

/// The perspective projection constant: a vertex one world unit off-axis
/// at depth `z` lands `PROJ_K * FP_ONE / z` cells from the viewport
/// center.
pub const PROJ_K: i64 = 200;

/// `|a|` as a mathematical integer.
pub open spec fn iabs(a: int) -> int {
    if a >= 0 {
        a
    } else {
        -a
    }
}

/// The quotient of `a` by a positive `b`, rounded toward zero: the rounding
/// of Rust's integer `/`.
pub open spec fn tdiv(a: int, b: int) -> int
    recommends
        b > 0,
{
    if a >= 0 {
        a / b
    } else {
        -((-a) / b)
    }
}

/// `a` forced into the `i32` range, as a float-to-`i32` cast saturates.
pub open spec fn clamp_i32(a: int) -> int {
    if a < i32::MIN as int {
        i32::MIN as int
    } else if a > i32::MAX as int {
        i32::MAX as int
    } else {
        a
    }
}

/// Truncating division has the magnitude of the nonnegative quotient of the
/// magnitudes: `|a / b| == |a| / b`, and in particular never grows.
pub proof fn lemma_tdiv_magnitude(a: int, b: int)
    requires
        b > 0,
    ensures
        iabs(tdiv(a, b)) == iabs(a) / b,
        iabs(tdiv(a, b)) <= iabs(a),
{
    lemma_div_pos_is_pos(iabs(a), b);
    lemma_div_nonincreasing(iabs(a), b);
}

/// Dividing a fixed magnitude by a larger positive scalar gives a quotient
/// no larger in magnitude.
pub proof fn lemma_tdiv_ordered_by_divisor(a: int, b1: int, b2: int)
    requires
        0 < b1 <= b2,
    ensures
        iabs(tdiv(a, b2)) <= iabs(tdiv(a, b1)),
{
    lemma_tdiv_magnitude(a, b1);
    lemma_tdiv_magnitude(a, b2);
    lemma_div_is_ordered_by_denominator(iabs(a), b1, b2);
}

/// A magnitude bound on the dividend carries to the quotient:
/// `|a| <= c` gives `|a / b| <= c / b`.
pub proof fn lemma_tdiv_bounded(a: int, b: int, c: int)
    requires
        b > 0,
        iabs(a) <= c,
    ensures
        iabs(tdiv(a, b)) <= c / b,
{
    lemma_tdiv_magnitude(a, b);
    lemma_div_is_ordered(iabs(a), c, b);
}

/// Truncating division by a positive divisor.
pub fn div_trunc(a: i64, b: i64) -> (r: i64)
    requires
        b > 0,
    ensures
        r == tdiv(a as int, b as int),
{
    proof {
        lemma_tdiv_magnitude(a as int, b as int);
    }
    a.checked_div(b).unwrap()
}

/// `a` forced into the `i32` range.
pub fn clamp_to_i32(a: i64) -> (r: i32)
    ensures
        r == clamp_i32(a as int),
{
    if a < i32::MIN as i64 {
        i32::MIN
    } else if a > i32::MAX as i64 {
        i32::MAX
    } else {
        a as i32
    }
}

} // verus!
