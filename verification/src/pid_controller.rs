//! The PID controller: proportional, derivative and integral corrections
//! of yaw, pitch, roll and pressure, and the lift that holds the drone up
//! at its current tilt.
use vstd::prelude::*;

use crate::fixed_point::{div_toward_zero, fits_i32, fits_i64, I16F16};
use crate::trig::{cordic_cos_bits, cos_i16f16};
use crate::yaw_pitch_roll::{
    diff_fits, gained_fits, over_fits, sum_fits, times_fits, ypr_diff, ypr_gained, ypr_of,
    ypr_over, ypr_sum, ypr_times, zero_ypr, YawPitchRoll,
};

verus! {

/// The terms of a PID correction; a set of them is a bit mask.
#[derive(PartialEq, Eq, Structural, Debug, Clone, Copy)]
pub enum ControllerFlags {
    AddP,
    AddD,
    AddI,
}

/// The bit of a term in a mask.
pub open spec fn flag_bit(flag: ControllerFlags) -> u8 {
    match flag {
        ControllerFlags::AddP => 1,
        ControllerFlags::AddD => 2,
        ControllerFlags::AddI => 4,
    }
}

impl ControllerFlags {
    /// The bit of this term in a mask.
    pub fn bit(&self) -> (r: u8)
        ensures
            r == flag_bit(*self),
    {
        match self {
            ControllerFlags::AddP => 1,
            ControllerFlags::AddD => 2,
            ControllerFlags::AddI => 4,
        }
    }

    /// Whether `flags` asks for this term.
    pub fn is_set_in(&self, flags: u8) -> (r: bool)
        ensures
            r == (flags & flag_bit(*self) != 0),
    {
        (flags & self.bit()) != 0
    }
}

/// The axis whose gains a trim message from the ground station sets.
#[derive(PartialEq, Eq, Structural, Debug, Clone, Copy)]
pub enum TrimAxis {
    Lift,
    Yaw,
    Pitch,
    Roll,
}

/// The slot of an axis in the gain arrays: yaw, pitch, roll, then the lift
/// (pressure) gains.
pub open spec fn gain_slot(axis: TrimAxis) -> int {
    match axis {
        TrimAxis::Yaw => 0,
        TrimAxis::Pitch => 1,
        TrimAxis::Roll => 2,
        TrimAxis::Lift => 3,
    }
}

/// Degrees to radians, 0.0174, as `I16F16` bits.
pub const DEGREE_TO_RAD_BITS: i32 = 1140;

/// The force that holds the drone up when level, 7.5, as `I16F16` bits.
pub const HOVER_FORCE_BITS: i32 = 0x7_8000;

/// Whether `flags` asks for the term `flag`.
pub open spec fn asks(flags: u8, flag: ControllerFlags) -> bool {
    flags & flag_bit(flag) != 0
}

/// `acc` plus `term` where the term is asked for, else `acc`.
pub open spec fn with_term(acc: YawPitchRoll, asked: bool, term: YawPitchRoll) -> YawPitchRoll {
    if asked {
        ypr_sum(acc, term)
    } else {
        acc
    }
}

/// The error, the correction before its lift is set, the new previous
/// error and the new integral, for gains `k_p`, `k_i`, `k_d`, the previous
/// error `prev`, the integral `integ`, the measured `input`, the `target`,
/// the terms asked for and the time step `delta_t`: with the error
/// `e = target - input`, the derivative `(e - prev) / delta_t` and the
/// integral `integ + e delta_t`, the correction is `k_p e + k_d (e - prev) /
/// delta_t + k_i (integ + e delta_t)`, each term only where asked for, added
/// in this order; the derivative term keeps `e` as the previous error, the
/// integral term keeps the new integral.
pub open spec fn pid_terms(
    k_p: Seq<I16F16>,
    k_i: Seq<I16F16>,
    k_d: Seq<I16F16>,
    prev: YawPitchRoll,
    integ: YawPitchRoll,
    input: YawPitchRoll,
    target: YawPitchRoll,
    flags: u8,
    delta_t: I16F16,
) -> (YawPitchRoll, YawPitchRoll, YawPitchRoll, YawPitchRoll) {
    let add_p = asks(flags, ControllerFlags::AddP);
    let add_i = asks(flags, ControllerFlags::AddI);
    let add_d = asks(flags, ControllerFlags::AddD);
    let err = ypr_diff(target, input);
    let derivative = ypr_over(ypr_diff(err, prev), delta_t);
    let integral = ypr_sum(integ, ypr_times(err, delta_t));
    let correction = with_term(
        with_term(with_term(zero_ypr(), add_p, ypr_gained(err, k_p)), add_d, ypr_gained(derivative, k_d)),
        add_i,
        ypr_gained(integral, k_i),
    );
    (err, correction, if add_d { err } else { prev }, if add_i { integral } else { integ })
}

/// Whether every step of `pid_terms` stays within `I16F16` (and the
/// derivative does not divide by a zero time step).
pub open spec fn pid_terms_fit(
    k_p: Seq<I16F16>,
    k_i: Seq<I16F16>,
    k_d: Seq<I16F16>,
    prev: YawPitchRoll,
    integ: YawPitchRoll,
    input: YawPitchRoll,
    target: YawPitchRoll,
    flags: u8,
    delta_t: I16F16,
) -> bool {
    let err = ypr_diff(target, input);
    let r0 = zero_ypr();
    let r1 = if asks(flags, ControllerFlags::AddP) {
        ypr_sum(r0, ypr_gained(err, k_p))
    } else {
        r0
    };
    let delta = ypr_diff(err, prev);
    let rate = ypr_over(delta, delta_t);
    let r2 = if asks(flags, ControllerFlags::AddD) {
        ypr_sum(r1, ypr_gained(rate, k_d))
    } else {
        r1
    };
    let integ2 = ypr_sum(integ, ypr_times(err, delta_t));
    &&& diff_fits(target, input)
    &&& asks(flags, ControllerFlags::AddP) ==> gained_fits(err, k_p) && sum_fits(
        r0,
        ypr_gained(err, k_p),
    )
    &&& asks(flags, ControllerFlags::AddD) ==> {
        &&& diff_fits(err, prev)
        &&& over_fits(delta, delta_t)
        &&& gained_fits(rate, k_d)
        &&& sum_fits(r1, ypr_gained(rate, k_d))
    }
    &&& asks(flags, ControllerFlags::AddI) ==> {
        &&& times_fits(err, delta_t)
        &&& sum_fits(integ, ypr_times(err, delta_t))
        &&& gained_fits(integ2, k_i)
        &&& sum_fits(r2, ypr_gained(integ2, k_i))
    }
}

/// Without the derivative and integral terms the controller keeps no
/// state: the previous error and the integral stay as they were, and the
/// correction (before its lift is set) is the error times the P gains.
pub proof fn lemma_proportional_only_keeps_state(
    k_p: Seq<I16F16>,
    k_i: Seq<I16F16>,
    k_d: Seq<I16F16>,
    prev: YawPitchRoll,
    integ: YawPitchRoll,
    input: YawPitchRoll,
    target: YawPitchRoll,
    flags: u8,
    delta_t: I16F16,
)
    requires
        !asks(flags, ControllerFlags::AddD),
        !asks(flags, ControllerFlags::AddI),
    ensures
        ({
            let t = pid_terms(k_p, k_i, k_d, prev, integ, input, target, flags, delta_t);
            &&& t.2 == prev
            &&& t.3 == integ
            &&& asks(flags, ControllerFlags::AddP) ==> t.1 == ypr_sum(zero_ypr(), ypr_gained(t.0, k_p))
            &&& !asks(flags, ControllerFlags::AddP) ==> t.1 == zero_ypr()
        }),
{
}

/// The bits of an angle in degrees brought to radians.
pub open spec fn radians_bits(degrees: int) -> int {
    (degrees * DEGREE_TO_RAD_BITS) / 0x10000
}

/// The bits of the tilt compensation for a pitch and a roll in degrees:
/// the product of their cosines.
pub open spec fn tilt_bits(pitch: int, roll: int) -> int {
    (cordic_cos_bits(radians_bits(pitch)) * cordic_cos_bits(radians_bits(roll))) / 0x10000
}

/// Whether the lift for a pressure correction at this tilt is defined:
/// the cosine product, the sum with the hover force and the quotient fit
/// and the tilt compensation is not zero.
pub open spec fn lift_defined(pitch: int, roll: int, pressure: int) -> bool {
    &&& fits_i64(cordic_cos_bits(radians_bits(pitch)) * cordic_cos_bits(radians_bits(roll)) * 0x10000)
    &&& fits_i32(HOVER_FORCE_BITS + pressure)
    &&& tilt_bits(pitch, roll) != 0
    &&& fits_i32(div_toward_zero((HOVER_FORCE_BITS + pressure) * 0x10000, tilt_bits(pitch, roll)))
}

/// The bits of the lift: the hover force plus the pressure correction,
/// divided by the tilt compensation.
pub open spec fn lift_bits(pitch: int, roll: int, pressure: int) -> int {
    div_toward_zero((HOVER_FORCE_BITS + pressure) * 0x10000, tilt_bits(pitch, roll))
}

/// A correction with its lift replaced.
pub open spec fn with_lift(r: YawPitchRoll, lift: int) -> YawPitchRoll {
    ypr_of(lift, r.yaw.bits as int, r.pitch.bits as int, r.roll.bits as int, r.pressure.bits as int)
}

/// The time step in seconds for a number of microseconds, as computed in
/// `I16F16`: the microseconds divided by 1000 twice, each rounded towards
/// zero.
pub open spec fn delta_t_bits(micros: int) -> int {
    div_toward_zero(
        div_toward_zero(micros * 0x10000 * 0x10000, 1000int * 0x10000) * 0x10000,
        1000int * 0x10000,
    )
}

/// A non-negative number of at most `0x7fff * 2^32` divided by 1000 in
/// `I16F16` fits.
proof fn lemma_milli_fits(a: int)
    requires
        0 <= a <= 0x7fff * 0x1_0000_0000,
    ensures
        div_toward_zero(a, 1000int * 0x10000) == a / (1000int * 0x10000),
        0 <= a / (1000int * 0x10000) <= 0x7fff * 0x10000,
{
    vstd::arithmetic::div_mod::lemma_div_is_ordered(a, 0x7fffint * 0x1_0000_0000, 1000int * 0x10000);
    vstd::arithmetic::div_mod::lemma_div_pos_is_pos(a, 1000int * 0x10000);
}

/// The time step in seconds for a number of microseconds. Larger numbers
/// than `i16::MAX` do not fit the integer part of `I16F16`.
pub fn delta_t_from_micros(micros: u32) -> (r: I16F16)
    requires
        micros <= 0x7fff,
    ensures
        r.bits == delta_t_bits(micros as int),
{
    let thousand = I16F16::from_i32(1000);
    let m = I16F16::from_i32(micros as i32);
    proof {
        assert(0 <= m.bits * 0x10000 <= 0x7fff * 0x1_0000_0000) by (nonlinear_arith)
            requires
                m.bits == micros * 0x10000,
                micros <= 0x7fff,
        ;
        assert(m.bits * 0x10000 == micros * 0x10000 * 0x10000);
        lemma_milli_fits(m.bits * 0x10000);
    }
    let once = m.div(thousand);
    proof {
        assert(0 <= once.bits * 0x10000 <= 0x7fff * 0x1_0000_0000) by (nonlinear_arith)
            requires
                0 <= once.bits <= 0x7fff * 0x10000,
        ;
        lemma_milli_fits(once.bits * 0x10000);
    }
    once.div(thousand)
}

/// The PID controller: the gains for yaw, pitch, roll and pressure (in
/// that order), the error of the last derivative step and the integral of
/// the error.
pub struct PIDController {
    pub k_p: [I16F16; 4],
    pub k_i: [I16F16; 4],
    pub k_d: [I16F16; 4],
    pub prev_error: YawPitchRoll,
    pub integration_build_up: YawPitchRoll,
}

impl PIDController {
    /// All gains zero, no previous error, nothing integrated.
    pub fn new() -> (r: Self)
        ensures
            forall|j: int| 0 <= j < 4 ==> r.k_p@[j].bits == 0 && r.k_i@[j].bits == 0 && r.k_d@[j].bits == 0,
            r.prev_error == zero_ypr(),
            r.integration_build_up == zero_ypr(),
    {
        let z = I16F16::from_bits(0);
        PIDController {
            k_p: [z, z, z, z],
            k_i: [z, z, z, z],
            k_d: [z, z, z, z],
            prev_error: YawPitchRoll::new(),
            integration_build_up: YawPitchRoll::new(),
        }
    }

    /// Sets the P, I and D gains of one axis; everything else stays.
    pub fn set_gains(&mut self, axis: TrimAxis, p: I16F16, i: I16F16, d: I16F16)
        ensures
            final(self).k_p@ == old(self).k_p@.update(gain_slot(axis), p),
            final(self).k_i@ == old(self).k_i@.update(gain_slot(axis), i),
            final(self).k_d@ == old(self).k_d@.update(gain_slot(axis), d),
            final(self).prev_error == old(self).prev_error,
            final(self).integration_build_up == old(self).integration_build_up,
    {
        let ind: usize = match axis {
            TrimAxis::Lift => 3,
            TrimAxis::Yaw => 0,
            TrimAxis::Pitch => 1,
            TrimAxis::Roll => 2,
        };
        self.k_p[ind] = p;
        self.k_i[ind] = i;
        self.k_d[ind] = d;
    }

    /// Forgets the previous error and the integral; the gains stay.
    pub fn reset_error(&mut self)
        ensures
            final(self).k_p == old(self).k_p,
            final(self).k_i == old(self).k_i,
            final(self).k_d == old(self).k_d,
            final(self).prev_error == zero_ypr(),
            final(self).integration_build_up == zero_ypr(),
    {
        self.integration_build_up = YawPitchRoll::new();
        self.prev_error = YawPitchRoll::new();
    }

    /// The correction before its lift is set, the new previous error and
    /// the new integral; nothing is changed.
    fn correction_terms(&self, input: YawPitchRoll, target: YawPitchRoll, controller_flags: u8, delta_t: I16F16) -> (r: (
        YawPitchRoll,
        YawPitchRoll,
        YawPitchRoll,
    ))
        requires
            pid_terms_fit(
                self.k_p@,
                self.k_i@,
                self.k_d@,
                self.prev_error,
                self.integration_build_up,
                input,
                target,
                controller_flags,
                delta_t,
            ),
        ensures
            ({
                let t = pid_terms(
                    self.k_p@,
                    self.k_i@,
                    self.k_d@,
                    self.prev_error,
                    self.integration_build_up,
                    input,
                    target,
                    controller_flags,
                    delta_t,
                );
                r == (t.1, t.2, t.3)
            }),
    {
        let mut result = YawPitchRoll::new();
        let calculated_error = target.sub(input);
        let mut prev_error = self.prev_error;
        let mut integration = self.integration_build_up;
        if ControllerFlags::AddP.is_set_in(controller_flags) {
            result = result.add(calculated_error.mul_pid_values(self.k_p));
        }
        if ControllerFlags::AddD.is_set_in(controller_flags) {
            let rate = calculated_error.sub(prev_error).div(delta_t);
            result = result.add(rate.mul_pid_values(self.k_d));
            prev_error = calculated_error;
        }
        if ControllerFlags::AddI.is_set_in(controller_flags) {
            integration = integration.add(calculated_error.mul(delta_t));
            result = result.add(integration.mul_pid_values(self.k_i));
        }
        (result, prev_error, integration)
    }

    /// The PID correction of `input` towards `target` with the terms that
    /// `controller_flags` asks for, over a time step `delta_t` (seconds);
    /// its lift is the hover force plus the pressure correction, divided by
    /// the cosines of pitch and roll. The derivative term keeps the error
    /// for the next step, the integral term adds to the integral.
    pub fn compute_pid_correction(
        &mut self,
        input: YawPitchRoll,
        target: YawPitchRoll,
        controller_flags: u8,
        delta_t: I16F16,
    ) -> (r: YawPitchRoll)
        requires
            pid_terms_fit(
                old(self).k_p@,
                old(self).k_i@,
                old(self).k_d@,
                old(self).prev_error,
                old(self).integration_build_up,
                input,
                target,
                controller_flags,
                delta_t,
            ),
            lift_defined(
                input.pitch.bits as int,
                input.roll.bits as int,
                pid_terms(
                    old(self).k_p@,
                    old(self).k_i@,
                    old(self).k_d@,
                    old(self).prev_error,
                    old(self).integration_build_up,
                    input,
                    target,
                    controller_flags,
                    delta_t,
                ).1.pressure.bits as int,
            ),
        ensures
            ({
                let t = pid_terms(
                    old(self).k_p@,
                    old(self).k_i@,
                    old(self).k_d@,
                    old(self).prev_error,
                    old(self).integration_build_up,
                    input,
                    target,
                    controller_flags,
                    delta_t,
                );
                &&& r == with_lift(
                    t.1,
                    lift_bits(input.pitch.bits as int, input.roll.bits as int, t.1.pressure.bits as int),
                )
                &&& final(self).prev_error == t.2
                &&& final(self).integration_build_up == t.3
                &&& final(self).k_p == old(self).k_p
                &&& final(self).k_i == old(self).k_i
                &&& final(self).k_d == old(self).k_d
            }),
    {
        let (result, prev_error, integration) = self.correction_terms(input, target, controller_flags, delta_t);
        self.prev_error = prev_error;
        self.integration_build_up = integration;
        let deg = I16F16::from_bits(DEGREE_TO_RAD_BITS);
        proof {
            lemma_radians_fit(input.pitch.bits as int);
            lemma_radians_fit(input.roll.bits as int);
        }
        let cos_pitch = cos_i16f16(input.pitch.mul(deg));
        let cos_roll = cos_i16f16(input.roll.mul(deg));
        let tilt_compensation = cos_pitch.mul(cos_roll);
        let hover = I16F16::from_bits(HOVER_FORCE_BITS);
        let lift = hover.add(result.pressure).div(tilt_compensation);
        YawPitchRoll { lift, ..result }
    }

    /// The PID correction as `compute_pid_correction` gives it, where its
    /// lift is defined at the measured pitch and roll; `None`, and the
    /// controller unchanged, where it is not.
    pub fn try_compute_pid_correction(
        &mut self,
        input: YawPitchRoll,
        target: YawPitchRoll,
        controller_flags: u8,
        delta_t: I16F16,
    ) -> (r: Option<YawPitchRoll>)
        requires
            pid_terms_fit(
                old(self).k_p@,
                old(self).k_i@,
                old(self).k_d@,
                old(self).prev_error,
                old(self).integration_build_up,
                input,
                target,
                controller_flags,
                delta_t,
            ),
        ensures
            ({
                let t = pid_terms(
                    old(self).k_p@,
                    old(self).k_i@,
                    old(self).k_d@,
                    old(self).prev_error,
                    old(self).integration_build_up,
                    input,
                    target,
                    controller_flags,
                    delta_t,
                );
                let defined = lift_defined(
                    input.pitch.bits as int,
                    input.roll.bits as int,
                    t.1.pressure.bits as int,
                );
                &&& r is Some <==> defined
                &&& r is Some ==> {
                    &&& r->0 == with_lift(
                        t.1,
                        lift_bits(input.pitch.bits as int, input.roll.bits as int, t.1.pressure.bits as int),
                    )
                    &&& final(self).prev_error == t.2
                    &&& final(self).integration_build_up == t.3
                    &&& final(self).k_p == old(self).k_p
                    &&& final(self).k_i == old(self).k_i
                    &&& final(self).k_d == old(self).k_d
                }
                &&& r is None ==> *final(self) == *old(self)
            }),
    {
        let (result, _, _) = self.correction_terms(input, target, controller_flags, delta_t);
        if lift_is_defined(input.pitch, input.roll, result.pressure) {
            Some(self.compute_pid_correction(input, target, controller_flags, delta_t))
        } else {
            None
        }
    }

}

/// Whether the lift for this pressure correction is defined at this pitch
/// and roll (see `lift_defined`); computes the two cosines to find out.
pub fn lift_is_defined(pitch: I16F16, roll: I16F16, pressure: I16F16) -> (r: bool)
    ensures
        r == lift_defined(pitch.bits as int, roll.bits as int, pressure.bits as int),
{
    let deg = I16F16::from_bits(DEGREE_TO_RAD_BITS);
    proof {
        lemma_radians_fit(pitch.bits as int);
        lemma_radians_fit(roll.bits as int);
    }
    let cos_pitch = cos_i16f16(pitch.mul(deg));
    let cos_roll = cos_i16f16(roll.mul(deg));
    let hover = I16F16::from_bits(HOVER_FORCE_BITS);
    match (cos_pitch.checked_mul(cos_roll), hover.checked_add(pressure)) {
        (Some(tilt), Some(total)) => tilt.bits != 0 && total.checked_div(tilt).is_some(),
        _ => false,
    }
}

/// Degrees brought to radians never leave the range of the product.
proof fn lemma_radians_fit(degrees: int)
    requires
        fits_i32(degrees),
    ensures
        fits_i64(degrees * DEGREE_TO_RAD_BITS * 0x10000),
{
    assert(-0x8000_0000 * 1140 * 0x10000 <= degrees * DEGREE_TO_RAD_BITS * 0x10000 <= 0x8000_0000 * 1140
        * 0x10000) by (nonlinear_arith)
        requires
            -0x8000_0000 <= degrees <= 0x8000_0000,
    ;
}

/// With only the derivative term asked for, each of yaw, pitch, roll and
/// pressure is corrected by the change of its error since the last step
/// over the time step, times the D gain of its axis; neither the P nor the
/// I gains matter. The error becomes the previous error, and the integral
/// stays.
pub proof fn lemma_derivative_only_uses_the_d_gains(
    k_p: Seq<I16F16>,
    k_i: Seq<I16F16>,
    k_d: Seq<I16F16>,
    other_k_p: Seq<I16F16>,
    other_k_i: Seq<I16F16>,
    prev: YawPitchRoll,
    integ: YawPitchRoll,
    input: YawPitchRoll,
    target: YawPitchRoll,
    flags: u8,
    delta_t: I16F16,
)
    requires
        asks(flags, ControllerFlags::AddD),
        !asks(flags, ControllerFlags::AddP),
        !asks(flags, ControllerFlags::AddI),
        pid_terms_fit(k_p, k_i, k_d, prev, integ, input, target, flags, delta_t),
    ensures
        ({
            let t = pid_terms(k_p, k_i, k_d, prev, integ, input, target, flags, delta_t);
            let dt = delta_t.bits as int;
            let de_yaw = (target.yaw.bits - input.yaw.bits) - prev.yaw.bits;
            let de_pitch = (target.pitch.bits - input.pitch.bits) - prev.pitch.bits;
            let de_roll = (target.roll.bits - input.roll.bits) - prev.roll.bits;
            let de_pressure = (target.pressure.bits - input.pressure.bits) - prev.pressure.bits;
            &&& t.1.yaw.bits == (div_toward_zero(de_yaw * 0x10000, dt) * k_d[0].bits) / 0x10000
            &&& t.1.pitch.bits == (div_toward_zero(de_pitch * 0x10000, dt) * k_d[1].bits) / 0x10000
            &&& t.1.roll.bits == (div_toward_zero(de_roll * 0x10000, dt) * k_d[2].bits) / 0x10000
            &&& t.1.pressure.bits == (div_toward_zero(de_pressure * 0x10000, dt) * k_d[3].bits)
                / 0x10000
            &&& t.1 == pid_terms(other_k_p, other_k_i, k_d, prev, integ, input, target, flags, delta_t).1
            &&& t.2.yaw.bits == target.yaw.bits - input.yaw.bits
            &&& t.2.pitch.bits == target.pitch.bits - input.pitch.bits
            &&& t.2.roll.bits == target.roll.bits - input.roll.bits
            &&& t.2.pressure.bits == target.pressure.bits - input.pressure.bits
            &&& t.3 == integ
        }),
{
}

/// With only the integral term asked for, the integral grows by the error
/// times the time step, and each of yaw, pitch, roll and pressure is
/// corrected by the new integral times the I gain of its axis; neither the
/// P nor the D gains matter, and the previous error stays.
pub proof fn lemma_integral_only_uses_the_i_gains(
    k_p: Seq<I16F16>,
    k_i: Seq<I16F16>,
    k_d: Seq<I16F16>,
    other_k_p: Seq<I16F16>,
    other_k_d: Seq<I16F16>,
    prev: YawPitchRoll,
    integ: YawPitchRoll,
    input: YawPitchRoll,
    target: YawPitchRoll,
    flags: u8,
    delta_t: I16F16,
)
    requires
        asks(flags, ControllerFlags::AddI),
        !asks(flags, ControllerFlags::AddP),
        !asks(flags, ControllerFlags::AddD),
        pid_terms_fit(k_p, k_i, k_d, prev, integ, input, target, flags, delta_t),
    ensures
        ({
            let t = pid_terms(k_p, k_i, k_d, prev, integ, input, target, flags, delta_t);
            let dt = delta_t.bits as int;
            let i_yaw = integ.yaw.bits + ((target.yaw.bits - input.yaw.bits) * dt) / 0x10000;
            let i_pitch = integ.pitch.bits + ((target.pitch.bits - input.pitch.bits) * dt) / 0x10000;
            let i_roll = integ.roll.bits + ((target.roll.bits - input.roll.bits) * dt) / 0x10000;
            let i_pressure = integ.pressure.bits + ((target.pressure.bits - input.pressure.bits) * dt)
                / 0x10000;
            &&& t.3.yaw.bits == i_yaw
            &&& t.3.pitch.bits == i_pitch
            &&& t.3.roll.bits == i_roll
            &&& t.3.pressure.bits == i_pressure
            &&& t.1.yaw.bits == (i_yaw * k_i[0].bits) / 0x10000
            &&& t.1.pitch.bits == (i_pitch * k_i[1].bits) / 0x10000
            &&& t.1.roll.bits == (i_roll * k_i[2].bits) / 0x10000
            &&& t.1.pressure.bits == (i_pressure * k_i[3].bits) / 0x10000
            &&& t.1 == pid_terms(other_k_p, k_i, other_k_d, prev, integ, input, target, flags, delta_t).1
            &&& t.2 == prev
        }),
{
}

} // verus!
