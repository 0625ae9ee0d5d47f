//! Motor mixing: from lift, yaw, pitch and roll to the squared rotor
//! speeds of the four motors, and from those to PWM values.
use vstd::prelude::*;

use crate::approx_funcs::{approx_sqrt, approx_sqrt_bits, lemma_approx_sqrt_not_below_root};
use crate::fixed_point::{div_toward_zero, fits_i32, fits_i64, I16F16, I28F4};
use crate::yaw_pitch_roll::YawPitchRoll;

verus! {

/// The slowest PWM value for a running motor.
pub const MIN_PWM: u16 = 200;

/// Below this lift (1.25, as `I16F16` bits) all motors stay off.
pub const THRESHOLD_LIFT_BITS: i32 = 0x14000;

/// The yaw factor 1250, as `I28F4` bits.
pub const THR_DIV_BITS: i32 = 20000;

/// The pitch, roll and lift factor 17857.286, as `I28F4` bits (rounded to
/// the nearest sixteenth).
pub const DRG_DIV_BITS: i32 = 285717;

/// The rotor speed that the motor maximum stands for.
pub const MAX_RPMS: i32 = 980;

/// The bits of the root of a squared rotor speed, as `I16F16`.
pub open spec fn root_bits(x: int) -> int {
    approx_sqrt_bits(x) * 0x1000
}

/// The root as a fraction of `MAX_RPMS`, as `I16F16` bits.
pub open spec fn rpm_ratio_bits(x: int) -> int {
    div_toward_zero(root_bits(x) * 0x10000, (MAX_RPMS * 0x10000) as int)
}

/// Whether mapping the squared speed `x` with this motor maximum stays
/// within the fixed-point ranges (and the PWM value within `u16`).
pub open spec fn pwm_in_range(x: int, motor_max: int) -> bool {
    &&& fits_i64(motor_max * 0x10000 * rpm_ratio_bits(x) * 0x10000)
    &&& 0 <= (motor_max * 0x10000 * rpm_ratio_bits(x)) / 0x10000 / 0x10000 <= u16::MAX
}

/// The PWM value for a squared rotor speed: the motor maximum times the
/// root's fraction of `MAX_RPMS`, rounded down.
pub open spec fn raw_pwm(x: int, motor_max: int) -> int {
    (motor_max * 0x10000 * rpm_ratio_bits(x)) / 0x10000 / 0x10000
}

/// The PWM value a motor gets: off below the lift threshold, otherwise at
/// least `MIN_PWM`.
pub open spec fn motor_pwm(x: int, motor_max: int, lift_bits: int) -> int {
    if lift_bits < THRESHOLD_LIFT_BITS {
        0
    } else if raw_pwm(x, motor_max) < MIN_PWM {
        MIN_PWM as int
    } else {
        raw_pwm(x, motor_max)
    }
}

proof fn lemma_root_bits_range(x: int)
    requires
        fits_i32(x),
    ensures
        0 <= root_bits(x) <= 0x4_0005 * 0x1000,
        0 <= rpm_ratio_bits(x),
        fits_i32(rpm_ratio_bits(x)),
{
    if x > 0 {
        lemma_approx_sqrt_not_below_root(x);
    }
    let r = root_bits(x);
    assert(r * 0x10000 >= 0) by (nonlinear_arith)
        requires
            r >= 0,
    ;
    assert(div_toward_zero(r * 0x10000, (MAX_RPMS * 0x10000) as int) == (r * 0x10000) / (980int
        * 0x10000));
    assert((r * 0x10000) / (980int * 0x10000) <= r) by (nonlinear_arith)
        requires
            r >= 0,
    ;
}

/// The PWM values for the squared rotor speeds of the four motors, for a
/// motor maximum `motor_max`: all off when the pilot's lift is below
/// `THRESHOLD_LIFT_BITS`, otherwise each at least `MIN_PWM`.
pub fn map_rpm_square_to_pwm(lift_raw_value: I16F16, rpms_square: &[I28F4; 4], motor_max: u16) -> (pwm: [u16; 4])
    requires
        motor_max <= 0x7fff,
        forall|k: int| 0 <= k < 4 ==> pwm_in_range(rpms_square@[k].bits as int, motor_max as int),
    ensures
        forall|k: int|
            0 <= k < 4 ==> pwm@[k] == motor_pwm(
                rpms_square@[k].bits as int,
                motor_max as int,
                lift_raw_value.bits as int,
            ),
{
    let max_rpms = I16F16::from_i32(MAX_RPMS);
    let cur_maxes = I16F16::from_i32(motor_max as i32);
    let mut pwm_to_set: [u16; 4] = [0u16; 4];
    let mut k: usize = 0;
    while k < 4
        invariant
            k <= 4,
            max_rpms.bits == MAX_RPMS * 0x10000,
            cur_maxes.bits == motor_max * 0x10000,
            forall|j: int| 0 <= j < 4 ==> pwm_in_range(rpms_square@[j].bits as int, motor_max as int),
            forall|j: int|
                0 <= j < k ==> pwm_to_set@[j] == raw_pwm(rpms_square@[j].bits as int, motor_max as int),
        decreases 4 - k,
    {
        let x = rpms_square[k];
        proof {
            lemma_root_bits_range(x.bits as int);
            if x.bits > 0 {
                lemma_approx_sqrt_not_below_root(x.bits as int);
            }
        }
        let root = approx_sqrt(x);
        let squared_number = I16F16::from_i28f4(root);
        let rpm_ratio = squared_number.div(max_rpms);
        let scaled = cur_maxes.mul(rpm_ratio);
        pwm_to_set[k] = scaled.to_u16();
        k += 1;
    }
    if lift_raw_value.bits < THRESHOLD_LIFT_BITS {
        // below the lift threshold all motors are off
        let mut j: usize = 0;
        while j < 4
            invariant
                j <= 4,
                forall|i: int| 0 <= i < j ==> pwm_to_set@[i] == 0,
            decreases 4 - j,
        {
            pwm_to_set[j] = 0;
            j += 1;
        }
    } else {
        let mut j: usize = 0;
        while j < 4
            invariant
                j <= 4,
                forall|i: int|
                    0 <= i < j ==> pwm_to_set@[i] == motor_pwm(
                        rpms_square@[i].bits as int,
                        motor_max as int,
                        lift_raw_value.bits as int,
                    ),
                forall|i: int|
                    j <= i < 4 ==> pwm_to_set@[i] == raw_pwm(rpms_square@[i].bits as int, motor_max as int),
                lift_raw_value.bits >= THRESHOLD_LIFT_BITS,
            decreases 4 - j,
        {
            if pwm_to_set[j] < MIN_PWM {
                pwm_to_set[j] = MIN_PWM;
            }
            j += 1;
        }
    }
    pwm_to_set
}

/// With a motor maximum of at most 1000 every squared speed maps to a PWM
/// value without leaving the fixed-point ranges.
pub proof fn lemma_pwm_in_range_for_bounded_max(x: int, motor_max: int)
    requires
        fits_i32(x),
        0 <= motor_max <= 1000,
    ensures
        pwm_in_range(x, motor_max),
{
    lemma_root_bits_range(x);
    let r = root_bits(x);
    let q = rpm_ratio_bits(x);
    assert(q == (r * 0x10000) / (980int * 0x10000));
    assert(q <= 0x4_0005 * 0x1000 / 980 + 1) by (nonlinear_arith)
        requires
            q == (r * 0x10000) / (980int * 0x10000),
            0 <= r <= 0x4_0005 * 0x1000,
    ;
    assert(0 <= motor_max * 0x10000 * q * 0x10000 <= 1000 * 0x10000 * (0x4_0005 * 0x1000 / 980
        + 1) * 0x10000) by (nonlinear_arith)
        requires
            0 <= q <= 0x4_0005 * 0x1000 / 980 + 1,
            0 <= motor_max <= 1000,
    ;
    let p = motor_max * 0x10000 * q;
    assert(0 <= p <= 1000 * 0x10000 * (0x4_0005 * 0x1000 / 980 + 1)) by (nonlinear_arith)
        requires
            0 <= q <= 0x4_0005 * 0x1000 / 980 + 1,
            0 <= motor_max <= 1000,
            p == motor_max * 0x10000 * q,
    ;
    let c: int = 1000int * 0x10000 * (0x4_0005 * 0x1000 / 980 + 1);
    vstd::arithmetic::div_mod::lemma_div_is_ordered(p, c, 0x10000);
    vstd::arithmetic::div_mod::lemma_div_is_ordered(p / 0x10000, c / 0x10000, 0x10000);
    vstd::arithmetic::div_mod::lemma_div_pos_is_pos(p, 0x10000);
    vstd::arithmetic::div_mod::lemma_div_pos_is_pos(p / 0x10000, 0x10000);
    assert(c / 0x10000 / 0x10000 <= u16::MAX);
}

/// An `I16F16` brought to `I28F4`: its 12 lowest fractional bits dropped.
pub open spec fn omega_of(v: I16F16) -> int {
    v.bits as int / 0x1000
}

/// The four squared speeds that the sticks ask for directly: the negated
/// lift, plus or minus pitch, roll and yaw for each motor.
pub open spec fn direct_omegas(y: YawPitchRoll) -> Seq<int> {
    let n = omega_of(y.yaw);
    let m = omega_of(y.pitch);
    let z = (-y.lift.bits) / 0x1000;
    let l = omega_of(y.roll);
    seq![z + m - n, z + l + n, z - m - n, z - l + n]
}

/// The PWM values of four squared speeds for the given lift and motor
/// maximum.
pub open spec fn pwm_of_omegas(omegas: Seq<int>, motor_max: int, lift_bits: int) -> Seq<int> {
    Seq::new(4, |k: int| motor_pwm(omegas[k], motor_max, lift_bits))
}

/// Whether every one of four squared speeds maps to a PWM value within range.
pub open spec fn omegas_in_range(omegas: Seq<int>, motor_max: int) -> bool {
    forall|k: int| 0 <= k < 4 ==> fits_i32(#[trigger] omegas[k]) && pwm_in_range(omegas[k], motor_max)
}

/// The PWM values for the four motors from the pilot's sticks taken
/// directly as squared rotor speeds.
pub fn actuate_motors_with_direct_joystick_input(
    input_from_controller: &YawPitchRoll,
    raw_lift: I16F16,
    motor_max: u16,
) -> (pwm: [u16; 4])
    requires
        input_from_controller.lift.bits != i32::MIN,
        motor_max <= 0x7fff,
        omegas_in_range(direct_omegas(*input_from_controller), motor_max as int),
    ensures
        pwm@.map_values(|p: u16| p as int) == pwm_of_omegas(
            direct_omegas(*input_from_controller),
            motor_max as int,
            raw_lift.bits as int,
        ),
{
    let n = I28F4::from_i16f16(input_from_controller.yaw);
    let m = I28F4::from_i16f16(input_from_controller.pitch);
    let z = I28F4::from_i16f16(input_from_controller.lift.neg());
    let l = I28F4::from_i16f16(input_from_controller.roll);
    let ghost om = direct_omegas(*input_from_controller);
    assert(om[0] == z.bits + m.bits - n.bits);
    let omega_one = z.add(m).sub(n);
    let omega_two = z.add(l).add(n);
    let omega_three = z.sub(m).sub(n);
    let omega_four = z.sub(l).add(n);
    proof {
        assert(om[1] == omega_two.bits);
        assert(om[2] == omega_three.bits);
        assert(om[3] == omega_four.bits);
    }
    let pwm = map_rpm_square_to_pwm(raw_lift, &[omega_one, omega_two, omega_three, omega_four], motor_max);
    proof {
        assert(pwm@.map_values(|p: u16| p as int) =~= pwm_of_omegas(om, motor_max as int, raw_lift.bits as int));
    }
    pwm
}

/// Zero for negative numbers.
pub open spec fn clamp_at_zero(v: int) -> int {
    if v >= 0 {
        v
    } else {
        0
    }
}

/// The yaw, pitch, lift and roll terms of the rate mixer: each stick value
/// in `I28F4` times its factor (`THR_DIV_BITS` for yaw, `DRG_DIV_BITS` for
/// the others), rounded down.
pub open spec fn rate_terms(y: YawPitchRoll) -> (int, int, int, int) {
    (
        (omega_of(y.yaw) * THR_DIV_BITS) / 16,
        (omega_of(y.pitch) * DRG_DIV_BITS) / 16,
        (((-y.lift.bits) / 0x1000) * DRG_DIV_BITS) / 16,
        (omega_of(y.roll) * DRG_DIV_BITS) / 16,
    )
}

/// Whether every product and every partial sum of the rate mixer stays
/// within `I28F4`.
pub open spec fn rates_fit(y: YawPitchRoll) -> bool {
    let (n, m, z, l) = rate_terms(y);
    &&& y.lift.bits != i32::MIN
    &&& fits_i64(omega_of(y.yaw) * THR_DIV_BITS * 0x1000_0000)
    &&& fits_i64(omega_of(y.pitch) * DRG_DIV_BITS * 0x1000_0000)
    &&& fits_i64(((-y.lift.bits) / 0x1000) * DRG_DIV_BITS * 0x1000_0000)
    &&& fits_i64(omega_of(y.roll) * DRG_DIV_BITS * 0x1000_0000)
    &&& fits_i32(m + m) && fits_i32(m + m - n) && fits_i32(m + m - n - z)
    &&& fits_i32(n - l) && fits_i32(n - l - l) && fits_i32(n - l - l - z)
    &&& n != i32::MIN && fits_i32(-n - m) && fits_i32(-n - m - m) && fits_i32(-n - m - m - z)
    &&& fits_i32(n + l) && fits_i32(n + l + l) && fits_i32(n + l + l - z)
}

/// The four squared speeds of the rate mixer, none below zero.
pub open spec fn rate_omegas(y: YawPitchRoll) -> Seq<int> {
    let (n, m, z, l) = rate_terms(y);
    seq![
        clamp_at_zero(m + m - n - z),
        clamp_at_zero(n - l - l - z),
        clamp_at_zero(-n - m - m - z),
        clamp_at_zero(n + l + l - z),
    ]
}

/// The PWM values for the four motors from yaw, pitch, roll and lift
/// rates, mixed through the thrust and drag factors.
pub fn actuate_motors_with_rates(input: &YawPitchRoll, raw_lift: I16F16, motor_max: u16) -> (pwm: [u16; 4])
    requires
        rates_fit(*input),
        motor_max <= 0x7fff,
        omegas_in_range(rate_omegas(*input), motor_max as int),
    ensures
        pwm@.map_values(|p: u16| p as int) == pwm_of_omegas(
            rate_omegas(*input),
            motor_max as int,
            raw_lift.bits as int,
        ),
{
    let thr_div = I28F4::from_bits(THR_DIV_BITS);
    let drg_div = I28F4::from_bits(DRG_DIV_BITS);
    let zero = I28F4::from_bits(0);
    let n = I28F4::from_i16f16(input.yaw).mul(thr_div);
    let m = I28F4::from_i16f16(input.pitch).mul(drg_div);
    let z = I28F4::from_i16f16(input.lift.neg()).mul(drg_div);
    let l = I28F4::from_i16f16(input.roll).mul(drg_div);
    let omega_one = m.add(m).sub(n).sub(z).max(zero);
    let omega_two = n.sub(l).sub(l).sub(z).max(zero);
    let omega_three = n.neg().sub(m).sub(m).sub(z).max(zero);
    let omega_four = n.add(l).add(l).sub(z).max(zero);
    let ghost om = rate_omegas(*input);
    proof {
        assert(om[0] == omega_one.bits);
        assert(om[1] == omega_two.bits);
        assert(om[2] == omega_three.bits);
        assert(om[3] == omega_four.bits);
    }
    let pwm = map_rpm_square_to_pwm(raw_lift, &[omega_one, omega_two, omega_three, omega_four], motor_max);
    proof {
        assert(pwm@.map_values(|p: u16| p as int) =~= pwm_of_omegas(om, motor_max as int, raw_lift.bits as int));
    }
    pwm
}

/// Below the lift threshold every motor is off; at or above it no motor
/// runs slower than `MIN_PWM`.
pub proof fn lemma_motors_off_or_spinning(x: int, motor_max: int, lift_bits: int)
    ensures
        lift_bits < THRESHOLD_LIFT_BITS ==> motor_pwm(x, motor_max, lift_bits) == 0,
        lift_bits >= THRESHOLD_LIFT_BITS ==> motor_pwm(x, motor_max, lift_bits) >= MIN_PWM,
{
}

} // verus!
