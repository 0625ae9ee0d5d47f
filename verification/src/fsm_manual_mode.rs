//! The integer motor mapping of the first manual mode: from the squared
//! rotor speeds that the mixing asks for to the PWM values of the motors.
use vstd::prelude::*;

verus! {

pub const MAX_BATTERY_VOLTAGE: i32 = 22;
pub const MOTOR_K_V: i32 = 980;

/// The highest rotor speed: the motor constant times the battery voltage.
pub const MAX_RPM: i32 = MOTOR_K_V * MAX_BATTERY_VOLTAGE;

/// The PWM value that drives a motor at `MAX_RPM`.
pub const MAX_POSSIBLE_PWM: i32 = 5000;

/// The largest input whose rounded-up square root can be found without the
/// square of the candidate overflowing `i32`.
pub const MAX_SQRT_INPUT: i32 = 46340 * 46340;

/// The manual mode of the first version of the controller.
pub struct FSMManual;

/// `r` is the square root of `x` rounded up (zero for `x <= 0`).
pub open spec fn is_ceil_sqrt(x: int, r: int) -> bool {
    &&& r >= 0
    &&& r * r >= x
    &&& (r == 0 || (r - 1) * (r - 1) < x)
}

/// The square root of `x` rounded up, zero for `x <= 0`.
pub open spec fn ceil_sqrt(x: int) -> int {
    choose|r: int| is_ceil_sqrt(x, r)
}

proof fn lemma_ceil_sqrt_unique(x: int, a: int, b: int)
    requires
        is_ceil_sqrt(x, a),
        is_ceil_sqrt(x, b),
    ensures
        a == b,
{
    if a < b {
        assert(a * a <= (b - 1) * (b - 1)) by (nonlinear_arith)
            requires
                0 <= a <= b - 1,
        ;
    } else if b < a {
        assert(b * b <= (a - 1) * (a - 1)) by (nonlinear_arith)
            requires
                0 <= b <= a - 1,
        ;
    }
}

/// `ceil_sqrt` is the root rounded up wherever one is known.
pub proof fn lemma_ceil_sqrt_is(x: int, r: int)
    requires
        is_ceil_sqrt(x, r),
    ensures
        ceil_sqrt(x) == r,
{
    let c = ceil_sqrt(x);
    assert(is_ceil_sqrt(x, c));
    lemma_ceil_sqrt_unique(x, c, r);
}

/// The smallest non-negative number whose square is at least `x`, found
/// by counting up.
pub fn my_sqrt(x: i32) -> (r: i32)
    requires
        x <= MAX_SQRT_INPUT,
    ensures
        is_ceil_sqrt(x as int, r as int),
        r == ceil_sqrt(x as int),
        0 <= r <= 46340,
{
    let mut i: i32 = 0;
    while i * i < x
        invariant
            0 <= i <= 46340,
            i * i <= MAX_SQRT_INPUT,
            x <= MAX_SQRT_INPUT,
            i == 0 || (i - 1) * (i - 1) < x,
        decreases 46340 - i,
    {
        assert(i < 46340) by (nonlinear_arith)
            requires
                0 <= i <= 46340,
                i * i < x,
                x <= 46340 * 46340,
        ;
        i += 1;
        assert(i * i <= 46340 * 46340) by (nonlinear_arith)
            requires
                0 <= i <= 46340,
        ;
    }
    proof {
        lemma_ceil_sqrt_is(x as int, i as int);
    }
    i
}

/// The rotor speed for a squared rotor speed, scaled from `MAX_RPM` to
/// `MAX_POSSIBLE_PWM`.
pub open spec fn pwm_rhs(x: int) -> int {
    ceil_sqrt(x) * MAX_POSSIBLE_PWM / (MAX_RPM as int)
}

/// The PWM value for one squared rotor speed: the smallest non-negative
/// value at least the rotor speed scaled from `MAX_RPM` to
/// `MAX_POSSIBLE_PWM`.
pub open spec fn pwm_for_rpm_square(x: int) -> int {
    let rhs = pwm_rhs(x);
    if rhs < 0 {
        0
    } else {
        rhs
    }
}

/// The PWM values of the four motors for the squared rotor speeds: one
/// value per given speed, zero for motors without a speed.
pub fn map_rpm_square_to_pwm(rpms_square: &[i32]) -> (pwm: [u16; 4])
    requires
        rpms_square@.len() <= 4,
        forall|k: int| 0 <= k < rpms_square@.len() ==> rpms_square@[k] <= MAX_SQRT_INPUT,
    ensures
        forall|k: int|
            0 <= k < 4 ==> pwm@[k] == (if k < rpms_square@.len() {
                pwm_for_rpm_square(rpms_square@[k] as int)
            } else {
                0
            }),
{
    let max_allowed_pwm: i32 = MAX_POSSIBLE_PWM;
    let mut pwm_to_set: [u16; 4] = [0u16; 4];
    let mut k: usize = 0;
    while k < rpms_square.len()
        invariant
            k <= rpms_square@.len() <= 4,
            max_allowed_pwm == MAX_POSSIBLE_PWM,
            forall|j: int| 0 <= j < rpms_square@.len() ==> rpms_square@[j] <= MAX_SQRT_INPUT,
            forall|j: int|
                0 <= j < 4 ==> pwm_to_set@[j] == (if j < k {
                    pwm_for_rpm_square(rpms_square@[j] as int)
                } else {
                    0
                }),
        decreases rpms_square@.len() - k,
    {
        let x = rpms_square[k];
        let mut wanted_pwm: i32 = 0;
        let squared_number = my_sqrt(x);
        assert(0 <= squared_number * max_allowed_pwm <= 46340 * 5000) by (nonlinear_arith)
            requires
                0 <= squared_number <= 46340,
                max_allowed_pwm == 5000,
        ;
        let rhs: i32 = (squared_number * max_allowed_pwm) / MAX_RPM;
        assert(rhs == pwm_rhs(x as int));
        assert(rhs <= 10747) by (nonlinear_arith)
            requires
                0 <= squared_number * max_allowed_pwm <= 46340 * 5000,
                rhs == (squared_number * max_allowed_pwm) / 21560,
        ;
        while wanted_pwm < rhs
            invariant
                0 <= wanted_pwm <= 10747,
                rhs <= 10747,
                rhs == pwm_rhs(x as int),
                wanted_pwm == 0 || wanted_pwm <= rhs,
            decreases rhs - wanted_pwm,
        {
            wanted_pwm += 1;
        }
        assert(wanted_pwm == pwm_for_rpm_square(x as int));
        pwm_to_set[k] = wanted_pwm as u16;
        k += 1;
    }
    pwm_to_set
}

} // verus!
