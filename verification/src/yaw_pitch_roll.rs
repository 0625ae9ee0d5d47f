//! Attitude targets and corrections: lift, yaw, pitch, roll and pressure as
//! `I16F16` numbers.
use vstd::prelude::*;

use crate::approx_funcs::{approx_sqrt_i16f16, approx_sqrt_i16f16_bits};
use crate::fixed_point::{div_toward_zero, fits_i32, fits_i64, I16F16};
use crate::pc_command::ManualDroneInput;
use crate::trig::{atan2_admissible, atan2_admissible_check, atan2_i16f16, cordic_atan2_bits};

verus! {

/// The lift at full stick.
pub const MAX_LIFT: i32 = 15;

/// The yaw rate at full stick.
pub const YAW_RATE: i32 = 120;

/// The pitch angle at full stick.
pub const PITCH_DEGREE: i32 = 30;

/// The roll angle at full stick.
pub const ROLL_DEGREE: i32 = 30;

/// Lift, yaw, pitch and roll, and the pressure (height) they go with.
#[derive(PartialEq, Eq, Structural, Debug, Clone, Copy)]
pub struct YawPitchRoll {
    pub lift: I16F16,
    pub yaw: I16F16,
    pub pitch: I16F16,
    pub roll: I16F16,
    pub pressure: I16F16,
}

/// The bits of a stick position scaled to `max_value` at full stick:
/// the position divided by `i16::MAX` (rounded towards zero in `I16F16`),
/// times `max_value`.
pub open spec fn stick_scaled(v: i16, max_value: int) -> int {
    max_value * div_toward_zero(v * 0x10000, i16::MAX as int)
}

pub open spec fn bits_of(y: YawPitchRoll) -> (int, int, int, int, int) {
    (y.lift.bits as int, y.yaw.bits as int, y.pitch.bits as int, y.roll.bits as int, y.pressure.bits as int)
}

/// The value with these five components as bits.
pub open spec fn ypr_of(lift: int, yaw: int, pitch: int, roll: int, pressure: int) -> YawPitchRoll {
    YawPitchRoll {
        lift: I16F16 { bits: lift as i32 },
        yaw: I16F16 { bits: yaw as i32 },
        pitch: I16F16 { bits: pitch as i32 },
        roll: I16F16 { bits: roll as i32 },
        pressure: I16F16 { bits: pressure as i32 },
    }
}

/// All components zero.
pub open spec fn zero_ypr() -> YawPitchRoll {
    ypr_of(0, 0, 0, 0, 0)
}

/// Whether every component sum fits.
pub open spec fn sum_fits(a: YawPitchRoll, b: YawPitchRoll) -> bool {
    &&& fits_i32(a.lift.bits + b.lift.bits)
    &&& fits_i32(a.yaw.bits + b.yaw.bits)
    &&& fits_i32(a.pitch.bits + b.pitch.bits)
    &&& fits_i32(a.roll.bits + b.roll.bits)
    &&& fits_i32(a.pressure.bits + b.pressure.bits)
}

/// The component-wise sum.
pub open spec fn ypr_sum(a: YawPitchRoll, b: YawPitchRoll) -> YawPitchRoll {
    ypr_of(
        a.lift.bits + b.lift.bits,
        a.yaw.bits + b.yaw.bits,
        a.pitch.bits + b.pitch.bits,
        a.roll.bits + b.roll.bits,
        a.pressure.bits + b.pressure.bits,
    )
}

/// Whether every component difference fits.
pub open spec fn diff_fits(a: YawPitchRoll, b: YawPitchRoll) -> bool {
    &&& fits_i32(a.lift.bits - b.lift.bits)
    &&& fits_i32(a.yaw.bits - b.yaw.bits)
    &&& fits_i32(a.pitch.bits - b.pitch.bits)
    &&& fits_i32(a.roll.bits - b.roll.bits)
    &&& fits_i32(a.pressure.bits - b.pressure.bits)
}

/// The component-wise difference.
pub open spec fn ypr_diff(a: YawPitchRoll, b: YawPitchRoll) -> YawPitchRoll {
    ypr_of(
        a.lift.bits - b.lift.bits,
        a.yaw.bits - b.yaw.bits,
        a.pitch.bits - b.pitch.bits,
        a.roll.bits - b.roll.bits,
        a.pressure.bits - b.pressure.bits,
    )
}

/// Whether every component times `s` fits.
pub open spec fn times_fits(a: YawPitchRoll, s: I16F16) -> bool {
    &&& fits_i64(a.lift.bits * s.bits * 0x10000)
    &&& fits_i64(a.yaw.bits * s.bits * 0x10000)
    &&& fits_i64(a.pitch.bits * s.bits * 0x10000)
    &&& fits_i64(a.roll.bits * s.bits * 0x10000)
    &&& fits_i64(a.pressure.bits * s.bits * 0x10000)
}

/// Every component times `s`, rounded towards minus infinity.
pub open spec fn ypr_times(a: YawPitchRoll, s: I16F16) -> YawPitchRoll {
    ypr_of(
        (a.lift.bits * s.bits) / 0x10000,
        (a.yaw.bits * s.bits) / 0x10000,
        (a.pitch.bits * s.bits) / 0x10000,
        (a.roll.bits * s.bits) / 0x10000,
        (a.pressure.bits * s.bits) / 0x10000,
    )
}

/// Whether every component divided by `s` is defined and fits.
pub open spec fn over_fits(a: YawPitchRoll, s: I16F16) -> bool {
    &&& s.bits != 0
    &&& fits_i32(div_toward_zero(a.lift.bits * 0x10000, s.bits as int))
    &&& fits_i32(div_toward_zero(a.yaw.bits * 0x10000, s.bits as int))
    &&& fits_i32(div_toward_zero(a.pitch.bits * 0x10000, s.bits as int))
    &&& fits_i32(div_toward_zero(a.roll.bits * 0x10000, s.bits as int))
    &&& fits_i32(div_toward_zero(a.pressure.bits * 0x10000, s.bits as int))
}

/// Every component divided by `s`, rounded towards zero.
pub open spec fn ypr_over(a: YawPitchRoll, s: I16F16) -> YawPitchRoll {
    ypr_of(
        div_toward_zero(a.lift.bits * 0x10000, s.bits as int),
        div_toward_zero(a.yaw.bits * 0x10000, s.bits as int),
        div_toward_zero(a.pitch.bits * 0x10000, s.bits as int),
        div_toward_zero(a.roll.bits * 0x10000, s.bits as int),
        div_toward_zero(a.pressure.bits * 0x10000, s.bits as int),
    )
}

/// Whether yaw, pitch, roll and pressure times their gains fit.
pub open spec fn gained_fits(a: YawPitchRoll, k: Seq<I16F16>) -> bool {
    &&& fits_i64(a.yaw.bits * k[0].bits * 0x10000)
    &&& fits_i64(a.pitch.bits * k[1].bits * 0x10000)
    &&& fits_i64(a.roll.bits * k[2].bits * 0x10000)
    &&& fits_i64(a.pressure.bits * k[3].bits * 0x10000)
}

/// Yaw, pitch, roll and pressure times their own gain (rounded towards
/// minus infinity); the lift kept.
pub open spec fn ypr_gained(a: YawPitchRoll, k: Seq<I16F16>) -> YawPitchRoll {
    ypr_of(
        a.lift.bits as int,
        (a.yaw.bits * k[0].bits) / 0x10000,
        (a.pitch.bits * k[1].bits) / 0x10000,
        (a.roll.bits * k[2].bits) / 0x10000,
        (a.pressure.bits * k[3].bits) / 0x10000,
    )
}

/// An attitude quaternion from the motion processor, its components as
/// `I16F16` numbers.
#[derive(PartialEq, Eq, Structural, Debug, Clone, Copy)]
pub struct Quaternion {
    pub w: I16F16,
    pub x: I16F16,
    pub y: I16F16,
    pub z: I16F16,
}

/// The bits of an `I16F16` product, rounded towards minus infinity.
pub open spec fn fx_mul(a: int, b: int) -> int {
    (a * b) / 0x10000
}

/// Whether an `I16F16` product of numbers with these bits fits.
pub open spec fn fx_mul_fits(a: int, b: int) -> bool {
    fits_i64(a * b * 0x10000)
}

/// The arguments of the three arc tangents of a quaternion, as bits: the
/// yaw's `y` and `x`, then `gx`, `gy`, `gz` and `gy^2 + gz^2`.
pub open spec fn quaternion_terms(q: Quaternion) -> (int, int, int, int, int, int) {
    let (w, x, y, z) = (q.w.bits as int, q.x.bits as int, q.y.bits as int, q.z.bits as int);
    let gx = 2 * (fx_mul(x, z) - fx_mul(w, y));
    let gy = 2 * (fx_mul(w, x) + fx_mul(y, z));
    let gz = fx_mul(w, w) - fx_mul(x, x) - fx_mul(y, y) + fx_mul(z, z);
    let yaw_y = 2 * (fx_mul(w, z) + fx_mul(x, y));
    let yaw_x = 0x10000 - 2 * (fx_mul(y, y) + fx_mul(z, z));
    (yaw_y, yaw_x, gx, gy, gz, fx_mul(gy, gy) + fx_mul(gz, gz))
}

/// Whether every product, sum and doubling of the quaternion terms stays
/// within `I16F16`.
pub open spec fn quaternion_terms_fit(q: Quaternion) -> bool {
    let (w, x, y, z) = (q.w.bits as int, q.x.bits as int, q.y.bits as int, q.z.bits as int);
    let (yaw_y, yaw_x, gx, gy, gz, sq) = quaternion_terms(q);
    &&& fx_mul_fits(x, z) && fx_mul_fits(w, y) && fx_mul_fits(w, x) && fx_mul_fits(y, z)
    &&& fx_mul_fits(w, w) && fx_mul_fits(x, x) && fx_mul_fits(y, y) && fx_mul_fits(z, z)
    &&& fx_mul_fits(w, z) && fx_mul_fits(x, y)
    &&& fits_i32(fx_mul(x, z) - fx_mul(w, y)) && fits_i32(gx)
    &&& fits_i32(fx_mul(w, x) + fx_mul(y, z)) && fits_i32(gy)
    &&& fits_i32(fx_mul(w, w) - fx_mul(x, x)) && fits_i32(fx_mul(w, w) - fx_mul(x, x) - fx_mul(y, y))
    &&& fits_i32(gz)
    &&& fits_i32(fx_mul(w, z) + fx_mul(x, y)) && fits_i32(yaw_y)
    &&& fits_i32(fx_mul(y, y) + fx_mul(z, z)) && fits_i32(2 * (fx_mul(y, y) + fx_mul(z, z)))
    &&& fits_i32(yaw_x)
    &&& fx_mul_fits(gy, gy) && fx_mul_fits(gz, gz) && fits_i32(sq)
}

/// Whether the three arc tangents of the quaternion are taken on
/// arguments they accept.
pub open spec fn quaternion_angles_admissible(q: Quaternion) -> bool {
    let (yaw_y, yaw_x, gx, gy, gz, sq) = quaternion_terms(q);
    &&& atan2_admissible(yaw_y, yaw_x)
    &&& atan2_admissible(gx, approx_sqrt_i16f16_bits(sq))
    &&& atan2_admissible(gy, gz)
}

/// Dividing numerator and denominator by the same positive factor does
/// not change the quotient.
proof fn lemma_div_cancel(a: int, d: int, c: int)
    requires
        d > 0,
        c > 0,
    ensures
        div_toward_zero(a * c, d * c) == div_toward_zero(a, d),
{
    let b = if a >= 0 {
        a
    } else {
        -a
    };
    vstd::arithmetic::div_mod::lemma_fundamental_div_mod(b, d);
    let q = b / d;
    let r = b % d;
    assert(b * c == (d * c) * q + r * c) by (nonlinear_arith)
        requires
            b == d * q + r,
    ;
    assert(0 <= r * c < d * c) by (nonlinear_arith)
        requires
            0 <= r < d,
            c > 0,
    ;
    vstd::arithmetic::div_mod::lemma_fundamental_div_mod_converse(b * c, d * c, q, r * c);
    if a < 0 {
        assert(-(a * c) == b * c) by (nonlinear_arith)
            requires
                b == -a,
        ;
        assert(a * c < 0) by (nonlinear_arith)
            requires
                a < 0,
                c > 0,
        ;
    } else {
        assert(a * c >= 0) by (nonlinear_arith)
            requires
                a >= 0,
                c > 0,
        ;
    }
}

/// A stick position scaled to `max_value` at full stick.
fn scale_stick(v: i16, max_value: i32) -> (r: I16F16)
    requires
        0 <= max_value <= 1000,
    ensures
        r.bits == stick_scaled(v, max_value as int),
{
    let full_scale = I16F16::from_i32(max_value);
    let position = I16F16::from_i32(v as i32);
    let full_stick = I16F16::from_i32(i16::MAX as i32);
    proof {
        lemma_div_cancel(v * 0x10000, i16::MAX as int, 0x10000);
        assert((v * 0x10000) * 0x10000 == position.bits * 0x10000);
        assert((i16::MAX as int) * 0x10000 == full_stick.bits);
        let d = div_toward_zero(v * 0x10000, i16::MAX as int);
        vstd::arithmetic::div_mod::lemma_div_is_ordered_by_denominator(
            if v >= 0 { v * 0x10000 } else { -(v * 0x10000) },
            32767,
            32767,
        );
        assert(-0x10002 <= d <= 0x10002) by {
            if v >= 0 {
                assert(v * 0x10000 / 32767 <= 0x10000) by (nonlinear_arith)
                    requires
                        0 <= v <= 32767,
                ;
            } else {
                assert(-(v * 0x10000) / 32767 <= 0x10002) by (nonlinear_arith)
                    requires
                        -32768 <= v < 0,
                ;
            }
        }
    }
    let ratio = position.div(full_stick);
    proof {
        let d = ratio.bits as int;
        assert(full_scale.bits * d * 0x10000 == (max_value * d) * 0x10000 * 0x10000) by (nonlinear_arith)
            requires
                full_scale.bits == max_value * 0x10000,
        ;
        assert(fits_i64(full_scale.bits * d * 0x10000)) by (nonlinear_arith)
            requires
                full_scale.bits == max_value * 0x10000,
                0 <= max_value <= 1000,
                -0x10002 <= d <= 0x10002,
        ;
        assert((full_scale.bits * d) / 0x10000 == max_value * d) by {
            assert(full_scale.bits * d == (max_value * d) * 0x10000) by (nonlinear_arith)
                requires
                    full_scale.bits == max_value * 0x10000,
            ;
            vstd::arithmetic::div_mod::lemma_div_multiples_vanish(max_value * d, 0x10000);
        }
    }
    full_scale.mul(ratio)
}

/// Doubling in `I16F16` (a product with two) is exact.
proof fn lemma_double(v: int)
    ensures
        (0x20000 * v) / 0x10000 == 2 * v,
        fits_i32(2 * v) ==> fx_mul_fits(0x20000, v),
{
    assert(0x20000 * v == 0x10000 * (2 * v));
    vstd::arithmetic::div_mod::lemma_div_multiples_vanish(2 * v, 0x10000);
    assert(fits_i32(2 * v) ==> fits_i64(0x20000 * v * 0x10000)) by (nonlinear_arith);
}

/// Halving an `I16F16` number always fits.
proof fn lemma_halve_fits(a: int)
    requires
        fits_i32(a),
    ensures
        fits_i32(div_toward_zero(a * 0x10000, 0x20000)),
{
    if a >= 0 {
        vstd::arithmetic::div_mod::lemma_div_is_ordered(a * 0x10000, 0x8000_0000int * 0x10000, 0x20000);
        vstd::arithmetic::div_mod::lemma_div_pos_is_pos(a * 0x10000, 0x20000);
    } else {
        vstd::arithmetic::div_mod::lemma_div_is_ordered(-a * 0x10000, 0x8000_0000int * 0x10000, 0x20000);
        vstd::arithmetic::div_mod::lemma_div_pos_is_pos(-a * 0x10000, 0x20000);
    }
}

impl YawPitchRoll {
    /// All zero.
    pub fn new() -> (r: Self)
        ensures
            r == zero_ypr(),
    {
        YawPitchRoll {
            lift: I16F16::from_i32(0),
            yaw: I16F16::from_i32(0),
            pitch: I16F16::from_i32(0),
            roll: I16F16::from_i32(0),
            pressure: I16F16::from_i32(0),
        }
    }

    /// The targets for the pilot's sticks: each stick position, as a
    /// fraction of full stick, times the value at full stick (`MAX_LIFT`,
    /// `YAW_RATE`, `PITCH_DEGREE`, `ROLL_DEGREE`); pressure zero.
    pub fn from_manual_input(input: &ManualDroneInput) -> (r: Self)
        ensures
            bits_of(r) == (
                stick_scaled(input.lift, MAX_LIFT as int),
                stick_scaled(input.yaw, YAW_RATE as int),
                stick_scaled(input.pitch, PITCH_DEGREE as int),
                stick_scaled(input.roll, ROLL_DEGREE as int),
                0int,
            ),
    {
        YawPitchRoll {
            lift: scale_stick(input.lift, MAX_LIFT),
            yaw: scale_stick(input.yaw, YAW_RATE),
            pitch: scale_stick(input.pitch, PITCH_DEGREE),
            roll: scale_stick(input.roll, ROLL_DEGREE),
            pressure: I16F16::from_i32(0),
        }
    }

    /// Yaw, pitch and roll (in radians) of an attitude quaternion: the yaw
    /// from the arc tangent of `2 (w z + x y)` over `1 - 2 (y^2 + z^2)`,
    /// halved; the pitch from the arc tangent of `gx` over the root of
    /// `gy^2 + gz^2`; the roll from the arc tangent of `gy` over `gz`.
    /// Lift and pressure are zero.
    pub fn from_quaternion(q: Quaternion) -> (r: Self)
        requires
            quaternion_terms_fit(q),
            quaternion_angles_admissible(q),
        ensures
            ({
                let (yaw_y, yaw_x, gx, gy, gz, sq) = quaternion_terms(q);
                bits_of(r) == (
                    0int,
                    div_toward_zero(cordic_atan2_bits(yaw_y, yaw_x) * 0x10000, 0x20000),
                    cordic_atan2_bits(gx, approx_sqrt_i16f16_bits(sq)),
                    cordic_atan2_bits(gy, gz),
                    0int,
                )
            }),
            q.x.bits == 0 && q.y.bits == 0 && q.z.bits == 0 && 0x1000 <= q.w.bits <= 0x1_0000 ==> bits_of(r)
                == (0int, 0int, 0int, 0int, 0int),
    {
        let Quaternion { w, x, y, z } = q;
        let one = I16F16::from_i32(1);
        let two = I16F16::from_i32(2);
        proof {
            lemma_double(fx_mul(x.bits as int, z.bits as int) - fx_mul(w.bits as int, y.bits as int));
        }
        let gx = two.mul(x.mul(z).sub(w.mul(y)));
        proof {
            lemma_double(fx_mul(w.bits as int, x.bits as int) + fx_mul(y.bits as int, z.bits as int));
        }
        let gy = two.mul(w.mul(x).add(y.mul(z)));
        let gz = w.mul(w).sub(x.mul(x)).sub(y.mul(y)).add(z.mul(z));
        proof {
            lemma_double(fx_mul(w.bits as int, z.bits as int) + fx_mul(x.bits as int, y.bits as int));
            lemma_double(fx_mul(y.bits as int, y.bits as int) + fx_mul(z.bits as int, z.bits as int));
        }
        let yaw_y = two.mul(w.mul(z).add(x.mul(y)));
        let yaw_x = one.sub(two.mul(y.mul(y).add(z.mul(z))));
        let yaw_angle = atan2_i16f16(yaw_y, yaw_x);
        proof {
            lemma_halve_fits(yaw_angle.bits as int);
        }
        let yaw = yaw_angle.div(two);
        let side = gy.mul(gy).add(gz.mul(gz));
        proof {
            if x.bits == 0 && y.bits == 0 && z.bits == 0 && 0x1000 <= w.bits <= 0x1_0000 {
                let ww = w.bits * w.bits;
                assert(0x100_0000 <= ww <= 0x1_0000_0000) by (nonlinear_arith)
                    requires
                        0x1000 <= w.bits <= 0x1_0000,
                        ww == w.bits * w.bits,
                ;
                assert(gz.bits == ww / 0x10000);
                assert(0x100 <= gz.bits <= 0x1_0000);
                assert(gz.bits * gz.bits >= 0x1_0000) by (nonlinear_arith)
                    requires
                        gz.bits >= 0x100,
                ;
                assert(side.bits >= 0);
                if side.bits > 0 {
                    crate::approx_funcs::lemma_approx_sqrt_not_below_root_in(side.bits as int, 16);
                }
            }
        }
        let root = approx_sqrt_i16f16(side);
        let pitch = atan2_i16f16(gx, root);
        let roll = atan2_i16f16(gy, gz);
        proof {
            if x.bits == 0 && y.bits == 0 && z.bits == 0 && 0x1000 <= w.bits <= 0x1_0000 {
                assert(yaw_angle.bits == 0);
                assert(div_toward_zero(0, 0x20000) == 0);
            }
        }
        YawPitchRoll { lift: I16F16::from_i32(0), yaw, pitch, roll, pressure: I16F16::from_i32(0) }
    }

    /// `from_quaternion`'s angles where its products and sums stay within
    /// `I16F16` and its arc tangents accept their arguments; `None`
    /// otherwise.
    pub fn try_from_quaternion(q: Quaternion) -> (r: Option<Self>)
        ensures
            r is Some <==> (quaternion_terms_fit(q) && quaternion_angles_admissible(q)),
            r is Some ==> ({
                let (yaw_y, yaw_x, gx, gy, gz, sq) = quaternion_terms(q);
                bits_of(r->0) == (
                    0int,
                    div_toward_zero(cordic_atan2_bits(yaw_y, yaw_x) * 0x10000, 0x20000),
                    cordic_atan2_bits(gx, approx_sqrt_i16f16_bits(sq)),
                    cordic_atan2_bits(gy, gz),
                    0int,
                )
            }),
    {
        let Quaternion { w, x, y, z } = q;
        let one = I16F16::from_i32(1);
        let two = I16F16::from_i32(2);
        let (xz, wy, wx, yz, ww, xx, yy, zz, wz, xy) = match (
            x.checked_mul(z),
            w.checked_mul(y),
            w.checked_mul(x),
            y.checked_mul(z),
            w.checked_mul(w),
            x.checked_mul(x),
            y.checked_mul(y),
            z.checked_mul(z),
            w.checked_mul(z),
            x.checked_mul(y),
        ) {
            (
                Some(xz),
                Some(wy),
                Some(wx),
                Some(yz),
                Some(ww),
                Some(xx),
                Some(yy),
                Some(zz),
                Some(wz),
                Some(xy),
            ) => (xz, wy, wx, yz, ww, xx, yy, zz, wz, xy),
            _ => return None,
        };
        let gx_half = match xz.checked_sub(wy) {
            Some(v) => v,
            None => return None,
        };
        proof {
            lemma_double(gx_half.bits as int);
        }
        let gx = match gx_half.checked_add(gx_half) {
            Some(_) => two.mul(gx_half),
            None => return None,
        };
        let gy_half = match wx.checked_add(yz) {
            Some(v) => v,
            None => return None,
        };
        proof {
            lemma_double(gy_half.bits as int);
        }
        let gy = match gy_half.checked_add(gy_half) {
            Some(_) => two.mul(gy_half),
            None => return None,
        };
        let gz = match ww.checked_sub(xx) {
            Some(a) => match a.checked_sub(yy) {
                Some(b) => match b.checked_add(zz) {
                    Some(c) => c,
                    None => return None,
                },
                None => return None,
            },
            None => return None,
        };
        let yaw_half = match wz.checked_add(xy) {
            Some(v) => v,
            None => return None,
        };
        proof {
            lemma_double(yaw_half.bits as int);
        }
        let yaw_y = match yaw_half.checked_add(yaw_half) {
            Some(_) => two.mul(yaw_half),
            None => return None,
        };
        let squares = match yy.checked_add(zz) {
            Some(v) => v,
            None => return None,
        };
        proof {
            lemma_double(squares.bits as int);
        }
        let yaw_x = match squares.checked_add(squares) {
            Some(_) => match one.checked_sub(two.mul(squares)) {
                Some(v) => v,
                None => return None,
            },
            None => return None,
        };
        let side = match (gy.checked_mul(gy), gz.checked_mul(gz)) {
            (Some(a), Some(b)) => match a.checked_add(b) {
                Some(v) => v,
                None => return None,
            },
            _ => return None,
        };
        let root = approx_sqrt_i16f16(side);
        if !atan2_admissible_check(yaw_y, yaw_x) || !atan2_admissible_check(gx, root)
            || !atan2_admissible_check(gy, gz) {
            return None;
        }
        Some(Self::from_quaternion(q))
    }

    /// Component-wise sum.
    pub fn add(self, other: Self) -> (r: Self)
        requires
            sum_fits(self, other),
        ensures
            r == ypr_sum(self, other),
    {
        YawPitchRoll {
            lift: self.lift.add(other.lift),
            yaw: self.yaw.add(other.yaw),
            pitch: self.pitch.add(other.pitch),
            roll: self.roll.add(other.roll),
            pressure: self.pressure.add(other.pressure),
        }
    }

    /// Component-wise difference.
    pub fn sub(self, other: Self) -> (r: Self)
        requires
            diff_fits(self, other),
        ensures
            r == ypr_diff(self, other),
    {
        YawPitchRoll {
            lift: self.lift.sub(other.lift),
            yaw: self.yaw.sub(other.yaw),
            pitch: self.pitch.sub(other.pitch),
            roll: self.roll.sub(other.roll),
            pressure: self.pressure.sub(other.pressure),
        }
    }

    /// Every component times a scalar, rounded towards minus infinity.
    pub fn mul(self, scalar: I16F16) -> (r: Self)
        requires
            times_fits(self, scalar),
        ensures
            r == ypr_times(self, scalar),
    {
        YawPitchRoll {
            lift: self.lift.mul(scalar),
            yaw: self.yaw.mul(scalar),
            pitch: self.pitch.mul(scalar),
            roll: self.roll.mul(scalar),
            pressure: self.pressure.mul(scalar),
        }
    }

    /// Every component divided by a scalar, rounded towards zero.
    pub fn div(self, scalar: I16F16) -> (r: Self)
        requires
            over_fits(self, scalar),
        ensures
            r == ypr_over(self, scalar),
    {
        YawPitchRoll {
            lift: self.lift.div(scalar),
            yaw: self.yaw.div(scalar),
            pitch: self.pitch.div(scalar),
            roll: self.roll.div(scalar),
            pressure: self.pressure.div(scalar),
        }
    }

    /// Yaw, pitch, roll and pressure times their own gain (in that order);
    /// the lift is kept.
    pub fn mul_pid_values(&self, scalar: [I16F16; 4]) -> (r: Self)
        requires
            gained_fits(*self, scalar@),
        ensures
            r == ypr_gained(*self, scalar@),
    {
        YawPitchRoll {
            lift: self.lift,
            yaw: self.yaw.mul(scalar[0]),
            pitch: self.pitch.mul(scalar[1]),
            roll: self.roll.mul(scalar[2]),
            pressure: self.pressure.mul(scalar[3]),
        }
    }
}

/// The arguments of a quaternion's pitch and roll are the gravity vector
/// seen from the drone, the last row of the quaternion's rotation matrix:
/// `gx = 2 (x z - w y)`, `gy = 2 (w x + y z)`, `gz = w^2 - x^2 - y^2 + z^2`
/// (each product in `I16F16`); the yaw's are `2 (w z + x y)` over
/// `1 - 2 (y^2 + z^2)`. So a rotation about the y axis by a positive
/// angle (`w` and `y` positive, `x` and `z` zero) gives a negative `gx`,
/// and one by a negative angle a positive `gx`.
pub proof fn lemma_quaternion_gravity_vector(q: Quaternion)
    ensures
        ({
            let (w, x, y, z) = (q.w.bits as int, q.x.bits as int, q.y.bits as int, q.z.bits as int);
            let (yaw_y, yaw_x, gx, gy, gz, sq) = quaternion_terms(q);
            &&& gx == 2 * ((x * z) / 0x10000) - 2 * ((w * y) / 0x10000)
            &&& gy == 2 * ((w * x) / 0x10000) + 2 * ((y * z) / 0x10000)
            &&& gz == (w * w) / 0x10000 - (x * x) / 0x10000 - (y * y) / 0x10000 + (z * z) / 0x10000
            &&& yaw_y == 2 * ((w * z) / 0x10000) + 2 * ((x * y) / 0x10000)
            &&& yaw_x == 0x10000 - 2 * ((y * y) / 0x10000) - 2 * ((z * z) / 0x10000)
            &&& sq == (gy * gy) / 0x10000 + (gz * gz) / 0x10000
            &&& (x == 0 && z == 0 && w > 0 && y > 0 && w * y >= 0x10000 ==> gx < 0)
            &&& (x == 0 && z == 0 && w > 0 && y < 0 ==> gx > 0)
        }),
{
    let (w, x, y, z) = (q.w.bits as int, q.x.bits as int, q.y.bits as int, q.z.bits as int);
    if x == 0 && z == 0 && w > 0 {
        assert(x * z == 0) by (nonlinear_arith)
            requires
                x == 0,
        ;
        if y > 0 && w * y >= 0x10000 {
            vstd::arithmetic::div_mod::lemma_div_is_ordered(0x10000, w * y, 0x10000);
        }
        if y < 0 {
            assert(w * y < 0) by (nonlinear_arith)
                requires
                    w > 0,
                    y < 0,
            ;
        }
    }
}

} // verus!
