//! Cosine and arc-tangent of `I16F16` numbers, computed by the `cordic`
//! crate. What they return is named here, not stated: the CORDIC rotations
//! take pages to write down and depend on the arguments alone.
use fixed::types::I16F16 as FixedI16F16;
use vstd::prelude::*;

use crate::fixed_point::I16F16;

verus! {

/// The bits of what `cordic::cos` gives for the `I16F16` angle (in
/// radians) with bits `angle`.
pub uninterp spec fn cordic_cos_bits(angle: int) -> int;

/// The bits of what `cordic::atan2` gives for the `I16F16` arguments with
/// bits `y` and `x`.
pub uninterp spec fn cordic_atan2_bits(y: int, x: int) -> int;

/// The magnitude of an integer.
pub open spec fn magnitude(v: int) -> int {
    if v >= 0 {
        v
    } else {
        -v
    }
}

/// The largest magnitude of the quotient `y / x` on which `cordic::atan2`
/// on `I16F16` is taken: the CORDIC vector then stays below
/// `1.65 * sqrt(1 + 19000^2)`, about 31300, inside the type.
pub const ATAN2_MAX_QUOTIENT: i64 = 19000;

/// The arguments on which `cordic::atan2` on `I16F16` is taken here: an
/// axis (one of them zero), or neither at the most negative value and
/// the quotient `y / x` of magnitude at most `ATAN2_MAX_QUOTIENT`.
pub open spec fn atan2_admissible(y: int, x: int) -> bool {
    ||| x == 0
    ||| y == 0
    ||| (x != i32::MIN && y != i32::MIN && magnitude(y) <= ATAN2_MAX_QUOTIENT * magnitude(x))
}

/// Calls `cordic::cos` on `I16F16`. The angle is first brought into
/// `[-pi/2, pi/2]` by whole turns of `pi`, then rotated by a fixed number
/// of CORDIC steps; no step leaves the type, so every angle is accepted.
/// The result is the named `cordic_cos_bits` of the angle's bits; its value
/// (close to the cosine, within about 0.001) is not stated.
#[verifier::external_body]
pub(crate) fn cos_i16f16(angle: I16F16) -> (r: I16F16)
    ensures
        r.bits == cordic_cos_bits(angle.bits as int),
{
    I16F16 { bits: cordic::cos(FixedI16F16::from_bits(angle.bits)).to_bits() }
}

/// Calls `cordic::atan2(y, x)` on `I16F16`. On an axis it returns a
/// constant; otherwise it divides `y` by `x` (negating one of them in two
/// quadrants) and runs the CORDIC vectoring steps, whose intermediate
/// values stay below `1.65 * sqrt(1 + (y/x)^2)`. The `requires` keeps the
/// quotient small enough for none of these to overflow. The result is the
/// named `cordic_atan2_bits`; its value (close to the angle of `(x, y)`)
/// is not stated, only what the source shows plainly: on the positive x
/// axis (`y` zero, `x` positive) the angle is zero; otherwise it is `pi`
/// or `pi / 2` (or their negations), or the CORDIC angle, a sum of sixteen
/// table entries below one, plus or minus `pi`, so its magnitude stays
/// below 20.
#[verifier::external_body]
pub(crate) fn atan2_i16f16(y: I16F16, x: I16F16) -> (r: I16F16)
    requires
        atan2_admissible(y.bits as int, x.bits as int),
    ensures
        r.bits == cordic_atan2_bits(y.bits as int, x.bits as int),
        -0x14_0000 <= r.bits <= 0x14_0000,
        y.bits == 0 && x.bits > 0 ==> r.bits == 0,
{
    I16F16 {
        bits: cordic::atan2(FixedI16F16::from_bits(y.bits), FixedI16F16::from_bits(x.bits)).to_bits(),
    }
}

/// Whether `cordic::atan2` is taken on these arguments (see
/// `atan2_admissible`).
pub fn atan2_admissible_check(y: I16F16, x: I16F16) -> (r: bool)
    ensures
        r == atan2_admissible(y.bits as int, x.bits as int),
{
    if x.bits == 0 || y.bits == 0 {
        return true;
    }
    if x.bits == i32::MIN || y.bits == i32::MIN {
        return false;
    }
    let my: i64 = if y.bits >= 0 { y.bits as i64 } else { -(y.bits as i64) };
    let mx: i64 = if x.bits >= 0 { x.bits as i64 } else { -(x.bits as i64) };
    my <= ATAN2_MAX_QUOTIENT * mx
}

} // verus!
