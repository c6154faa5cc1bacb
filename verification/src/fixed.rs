//! Fixed-point scalars.
//!
//! Every length, speed, duration and angle of the engine is an `i64` that
//! counts multiples of `1 / ONE`: 23 fraction bits, the resolution of a
//! single-precision float at unit magnitude. Lengths are in world units,
//! durations in seconds, angles in radians.

use vstd::prelude::*;

verus! {

/// Number of fraction bits of a scalar.
pub const FRACTION_BITS: u32 = 23;

/// The scalar that stands for `1.0`.
pub const ONE: i64 = 8_388_608;

/// The gap between `ONE` and the next scalar above it.
pub const EPSILON: i64 = 1;

/// Half a turn in radians: pi, to the nearest scalar below it.
pub const HALF_TURN: i64 = 26_353_589;

/// `v` brought into the range of an `i64`.
pub open spec fn saturated(v: int) -> int {
    if v < i64::MIN {
        i64::MIN as int
    } else if v > i64::MAX {
        i64::MAX as int
    } else {
        v
    }
}

/// A value at scale `ONE * ONE` brought back to scale `ONE`, rounded toward
/// zero, so that `scaled_down(-v) == -scaled_down(v)`.
pub open spec fn scaled_down(v: int) -> int {
    if v >= 0 {
        v / (ONE as int)
    } else {
        -((-v) / (ONE as int))
    }
}

/// The fixed-point product of two scalars.
pub open spec fn times(a: int, b: int) -> int {
    saturated(scaled_down(a * b))
}

/// The magnitude of `v`.
pub open spec fn magnitude(v: int) -> int {
    if v < 0 {
        -v
    } else {
        v
    }
}

/// Any two `i64` multiply without leaving the range of an `i128`.
pub(crate) proof fn lemma_product_fits(a: i64, b: i64)
    ensures
        -0x4000_0000_0000_0000_0000_0000_0000_0000 <= a * b
            <= 0x4000_0000_0000_0000_0000_0000_0000_0000,
{
    assert(-0x4000_0000_0000_0000_0000_0000_0000_0000 <= a * b
        <= 0x4000_0000_0000_0000_0000_0000_0000_0000) by (nonlinear_arith)
        requires
            -0x8000_0000_0000_0000 <= a <= 0x7fff_ffff_ffff_ffff,
            -0x8000_0000_0000_0000 <= b <= 0x7fff_ffff_ffff_ffff,
    ;
}

/// Narrows a wide intermediate result, clamping at the ends of the range.
pub fn saturate(v: i128) -> (r: i64)
    ensures
        r == saturated(v as int),
{
    if v < i64::MIN as i128 {
        i64::MIN
    } else if v > i64::MAX as i128 {
        i64::MAX
    } else {
        v as i64
    }
}

/// Brings a value at scale `ONE * ONE` back to scale `ONE`.
pub fn scale_down(v: i128) -> (r: i128)
    ensures
        r == scaled_down(v as int),
{
    v / (ONE as i128)
}

/// Multiplies two scalars.
pub fn multiply(a: i64, b: i64) -> (r: i64)
    ensures
        r == times(a as int, b as int),
{
    proof {
        lemma_product_fits(a, b);
    }
    let wide: i128 = (a as i128) * (b as i128);
    saturate(scale_down(wide))
}

} // verus!
