//! A complementary filter for pitch and roll: the gyroscope's rate is
//! integrated and pulled towards the angle that the accelerometer's
//! gravity vector shows, while a bias on the rate is learned; the yaw is
//! the gyroscope's rate over the last step.
use vstd::prelude::*;

use crate::approx_funcs::{approx_sqrt_i16f16, approx_sqrt_i16f16_bits};
use crate::axis::Axis;
use crate::calibration_state::Axis as SensorAxis;
use crate::fixed_point::{div_toward_zero, fits_i32, fits_i64, I16F16};
use crate::trig::{atan2_admissible, atan2_admissible_check, atan2_i16f16, cordic_atan2_bits};
use crate::yaw_pitch_roll::{fx_mul, fx_mul_fits, YawPitchRoll};

verus! {

/// How much of the disagreement with the accelerometer is kept, 1.5, as
/// `I16F16` bits (the estimate moves by the disagreement over 1.5).
pub const C1_BITS: i32 = 0x1_8000;

/// The bias learning rate, 1e-5, as `I16F16` bits (rounded to the nearest
/// bit).
pub const C2_BITS: i32 = 1;

/// Accelerometer units per g, 16384, as `I16F16` bits.
pub const LSB_ACCEL_TO_GS_BITS: i32 = 0x4000_0000;

/// Radians to degrees, 57.2957, as `I16F16` bits.
pub const RAD_TO_DEGREE_BITS: i32 = 3754931;

/// Degrees to radians, 0.0174, as `I16F16` bits.
pub const DEGREE_TO_RAD_BITS: i32 = 1140;

/// The accelerometer needs this long between samples (milliseconds).
pub const ACCEL_SAMPLE_PERIOD_MS: u64 = 1;

/// The filter's state: the learned rate biases, the last reading
/// (acceleration in g, then rates), the angles and the sensor offsets.
pub struct KalmanFilter {
    pub bias_p: I16F16,
    pub bias_q: I16F16,
    pub reading: (Axis<I16F16>, Axis<I16F16>),
    pub roll: I16F16,
    pub pitch: I16F16,
    pub yaw: I16F16,
    pub calibration_offset: (Axis<I16F16>, Axis<I16F16>),
    pub last_read_time_us: u64,
}

/// The whole milliseconds from `last` to `now` (microseconds), zero when
/// `now` is earlier.
pub open spec fn elapsed_ms_between(now: u64, last: u64) -> int {
    if now >= last {
        (now - last) / 1000
    } else {
        0
    }
}

/// Whether `new` is `old` after taking in a sample `elapsed_ms`
/// milliseconds after the last one (the time kept aside).
pub open spec fn sampled(old: KalmanFilter, new: KalmanFilter, accel: SensorAxis, gyro: SensorAxis, elapsed_ms: u64) -> bool {
    let (ax, ay, az, gx, gy, gz) = sample_reading(old.calibration_offset, accel, gyro);
    let (pitch, bias_q, roll, bias_p, yaw) = after_sample(old, accel, gyro, elapsed_ms);
    &&& new.reading.0.x.bits == ax && new.reading.0.y.bits == ay && new.reading.0.z.bits == az
    &&& new.reading.1.x.bits == gx && new.reading.1.y.bits == gy && new.reading.1.z.bits == gz
    &&& new.pitch.bits == pitch && new.bias_q.bits == bias_q
    &&& new.roll.bits == roll && new.bias_p.bits == bias_p
    &&& new.yaw.bits == yaw
    &&& new.calibration_offset == old.calibration_offset
}

/// Whether a sample finds the drone level and at rest in a filter at rest:
/// no acceleration sideways, gravity (at least 1/256 g) downwards, no
/// rates, angles and biases zero.
pub open spec fn level_at_rest(old: KalmanFilter, accel: SensorAxis, gyro: SensorAxis) -> bool {
    let (ax, ay, az, gx, gy, gz) = sample_reading(old.calibration_offset, accel, gyro);
    &&& ax == 0 && ay == 0 && az >= 0x100 && gx == 0 && gy == 0 && gz == 0
    &&& old.pitch.bits == 0 && old.roll.bits == 0
    &&& old.bias_p.bits == 0 && old.bias_q.bits == 0
}

/// Whether the angles, the yaw and the biases are all zero.
pub open spec fn still_level(f: KalmanFilter) -> bool {
    &&& f.pitch.bits == 0 && f.roll.bits == 0 && f.yaw.bits == 0
    &&& f.bias_p.bits == 0 && f.bias_q.bits == 0
}

/// The bits of a raw sensor value minus its offset.
pub open spec fn offset_bits(raw: i16, offset: I16F16) -> int {
    raw * 0x10000 - offset.bits
}

/// The bits of an acceleration in g: the raw value minus its offset, over
/// `LSB_ACCEL_TO_GS`.
pub open spec fn accel_bits(raw: i16, offset: I16F16) -> int {
    div_toward_zero(offset_bits(raw, offset) * 0x10000, LSB_ACCEL_TO_GS_BITS as int)
}

/// The bits of the time step for a number of milliseconds.
pub open spec fn dt_bits(ms: int) -> int {
    (ms * 0x10000) / 1000
}

/// The bits of the sum of squares under the pitch's square root.
pub open spec fn side_square_bits(ay: int, az: int) -> int {
    fx_mul(ay, ay) + fx_mul(az, az)
}

/// One filter step for an angle: the rate with its bias removed,
/// integrated over `dt` onto the angle; the result moved towards the
/// measured angle by the disagreement over `C1`; the bias moved by the
/// disagreement's rate times `C2`. Gives the new angle and bias.
pub open spec fn filter_step(angle: int, bias: int, rate: int, measured: int, dt: int) -> (int, int) {
    let clean = fx_mul(rate, DEGREE_TO_RAD_BITS as int) - bias;
    let estimate = angle + fx_mul(clean, dt);
    let e = estimate - measured;
    (
        estimate - div_toward_zero(e * 0x10000, C1_BITS as int),
        bias + fx_mul(div_toward_zero(e * 0x10000, dt), C2_BITS as int),
    )
}

/// Whether every operation of `filter_step` stays within `I16F16` and
/// the time step is not zero.
pub open spec fn filter_step_fits(angle: int, bias: int, rate: int, measured: int, dt: int) -> bool {
    let clean = fx_mul(rate, DEGREE_TO_RAD_BITS as int) - bias;
    let estimate = angle + fx_mul(clean, dt);
    let e = estimate - measured;
    let speed = div_toward_zero(e * 0x10000, dt);
    &&& fx_mul_fits(rate, DEGREE_TO_RAD_BITS as int)
    &&& fits_i32(clean)
    &&& fx_mul_fits(clean, dt)
    &&& fits_i32(estimate)
    &&& fits_i32(e)
    &&& fits_i32(estimate - div_toward_zero(e * 0x10000, C1_BITS as int))
    &&& dt != 0
    &&& fits_i32(speed)
    &&& fx_mul_fits(speed, C2_BITS as int)
    &&& fits_i32(bias + fx_mul(speed, C2_BITS as int))
}

/// The reading of a sample: accelerations in g, rates with their offsets
/// removed.
pub open spec fn sample_reading(
    offset: (Axis<I16F16>, Axis<I16F16>),
    accel: SensorAxis,
    gyro: SensorAxis,
) -> (int, int, int, int, int, int) {
    (
        accel_bits(accel.x, offset.0.x),
        accel_bits(accel.y, offset.0.y),
        accel_bits(accel.z, offset.0.z),
        offset_bits(gyro.x, offset.1.x),
        offset_bits(gyro.y, offset.1.y),
        offset_bits(gyro.z, offset.1.z),
    )
}

/// The measured pitch and roll of a reading: the arc tangents of the
/// gravity vector.
pub open spec fn measured_angles(ax: int, ay: int, az: int) -> (int, int) {
    (
        cordic_atan2_bits(-ax, approx_sqrt_i16f16_bits(side_square_bits(ay, az))),
        cordic_atan2_bits(ay, az),
    )
}

/// Whether a sample can be taken in: the offsets removed, the time step,
/// the arc tangents' arguments and both filter steps (from the old pitch,
/// roll and biases) and the yaw product stay within range.
pub open spec fn sample_fits(
    f: KalmanFilter,
    accel: SensorAxis,
    gyro: SensorAxis,
    elapsed_ms: u64,
) -> bool {
    let (ax, ay, az, gx, gy, gz) = sample_reading(f.calibration_offset, accel, gyro);
    let dt = dt_bits(elapsed_ms as int);
    let (measured_pitch, measured_roll) = measured_angles(ax, ay, az);
    &&& fits_i32(offset_bits(accel.x, f.calibration_offset.0.x))
    &&& fits_i32(offset_bits(accel.y, f.calibration_offset.0.y))
    &&& fits_i32(offset_bits(accel.z, f.calibration_offset.0.z))
    &&& fits_i32(gx) && fits_i32(gy) && fits_i32(gz)
    &&& elapsed_ms <= 0x7fff
    &&& atan2_admissible(-ax, approx_sqrt_i16f16_bits(side_square_bits(ay, az)))
    &&& atan2_admissible(ay, az)
    &&& filter_step_fits(f.pitch.bits as int, f.bias_q.bits as int, gy, measured_pitch, dt)
    &&& filter_step_fits(f.roll.bits as int, f.bias_p.bits as int, gx, measured_roll, dt)
    &&& fx_mul_fits(gz, dt)
}

/// The filter after taking in a sample: pitch (with its bias) and roll
/// (with its bias) each take one `filter_step` towards the angle that the
/// gravity vector shows, driven by the rate about their axis; the yaw is
/// the yaw rate times the time step. Gives pitch, pitch bias, roll, roll
/// bias and yaw.
pub open spec fn after_sample(
    f: KalmanFilter,
    accel: SensorAxis,
    gyro: SensorAxis,
    elapsed_ms: u64,
) -> (int, int, int, int, int) {
    let (ax, ay, az, gx, gy, gz) = sample_reading(f.calibration_offset, accel, gyro);
    let dt = dt_bits(elapsed_ms as int);
    let (measured_pitch, measured_roll) = measured_angles(ax, ay, az);
    let (pitch, bias_q) = filter_step(f.pitch.bits as int, f.bias_q.bits as int, gy, measured_pitch, dt);
    let (roll, bias_p) = filter_step(f.roll.bits as int, f.bias_p.bits as int, gx, measured_roll, dt);
    (pitch, bias_q, roll, bias_p, fx_mul(gz, dt))
}

/// An acceleration component in g never leaves `I16F16`.
proof fn lemma_accel_fits(v: int)
    requires
        fits_i32(v),
    ensures
        fits_i32(div_toward_zero(v * 0x10000, LSB_ACCEL_TO_GS_BITS as int)),
        -0x2_0000 <= div_toward_zero(v * 0x10000, LSB_ACCEL_TO_GS_BITS as int) <= 0x2_0000,
{
    if v >= 0 {
        vstd::arithmetic::div_mod::lemma_div_is_ordered(v * 0x10000, 0x8000_0000int * 0x10000, 0x4000_0000);
        vstd::arithmetic::div_mod::lemma_div_pos_is_pos(v * 0x10000, 0x4000_0000);
    } else {
        vstd::arithmetic::div_mod::lemma_div_is_ordered(-v * 0x10000, 0x8000_0000int * 0x10000, 0x4000_0000);
        vstd::arithmetic::div_mod::lemma_div_pos_is_pos(-v * 0x10000, 0x4000_0000);
    }
}

impl KalmanFilter {
    /// A filter at rest (angles and biases zero) with these sensor offsets,
    /// last sampled at `now_us`.
    pub fn new(offset: (Axis<I16F16>, Axis<I16F16>), now_us: u64) -> (r: Self)
        ensures
            r.bias_p.bits == 0 && r.bias_q.bits == 0,
            r.roll.bits == 0 && r.pitch.bits == 0 && r.yaw.bits == 0,
            r.calibration_offset == offset,
            r.last_read_time_us == now_us,
    {
        let z = I16F16::from_bits(0);
        KalmanFilter {
            bias_p: z,
            bias_q: z,
            reading: (Axis { x: z, y: z, z: z }, Axis { x: z, y: z, z: z }),
            roll: z,
            pitch: z,
            yaw: z,
            calibration_offset: offset,
            last_read_time_us: now_us,
        }
    }

    /// One step of the filter for an angle, on `I16F16` numbers.
    fn step_angle(angle: I16F16, bias: I16F16, rate: I16F16, measured: I16F16, dt: I16F16) -> (r: (
        I16F16,
        I16F16,
    ))
        requires
            filter_step_fits(angle.bits as int, bias.bits as int, rate.bits as int, measured.bits as int, dt.bits as int),
        ensures
            (r.0.bits as int, r.1.bits as int) == filter_step(
                angle.bits as int,
                bias.bits as int,
                rate.bits as int,
                measured.bits as int,
                dt.bits as int,
            ),
    {
        let deg = I16F16::from_bits(DEGREE_TO_RAD_BITS);
        let c1 = I16F16::from_bits(C1_BITS);
        let c2 = I16F16::from_bits(C2_BITS);
        let clean = rate.mul(deg).sub(bias);
        let estimate = angle.add(clean.mul(dt));
        let e = estimate.sub(measured);
        proof {
            lemma_third_off_fits(e.bits as int);
        }
        let new_angle = estimate.sub(e.div(c1));
        let new_bias = bias.add(e.div(dt).mul(c2));
        (new_angle, new_bias)
    }

    /// Takes in a sample `elapsed_ms` milliseconds after the last.
    fn take_sample(&mut self, accel: SensorAxis, gyro: SensorAxis, elapsed_ms: u64)
        requires
            sample_fits(*old(self), accel, gyro, elapsed_ms),
        ensures
            sampled(*old(self), *final(self), accel, gyro, elapsed_ms),
            final(self).last_read_time_us == old(self).last_read_time_us,
            level_at_rest(*old(self), accel, gyro) ==> still_level(*final(self)),
    {
        let accel_raw = Axis::from_sensor(accel);
        let gyro_raw = Axis::from_sensor(gyro);
        let offset = self.calibration_offset;
        let lsb = I16F16::from_bits(LSB_ACCEL_TO_GS_BITS);
        proof {
            lemma_accel_fits(offset_bits(accel.x, offset.0.x));
            lemma_accel_fits(offset_bits(accel.y, offset.0.y));
            lemma_accel_fits(offset_bits(accel.z, offset.0.z));
        }
        let acc = Axis {
            x: accel_raw.x.sub(offset.0.x).div(lsb),
            y: accel_raw.y.sub(offset.0.y).div(lsb),
            z: accel_raw.z.sub(offset.0.z).div(lsb),
        };
        let rate = Axis {
            x: gyro_raw.x.sub(offset.1.x),
            y: gyro_raw.y.sub(offset.1.y),
            z: gyro_raw.z.sub(offset.1.z),
        };
        self.reading = (acc, rate);
        let dt = I16F16::from_i32(elapsed_ms as i32).div_int(1000);
        assert(dt.bits == dt_bits(elapsed_ms as int));
        // pitch
        proof {
            assert(-0x2_0000 <= acc.x.bits <= 0x2_0000);
            lemma_side_square_fits(acc.y.bits as int, acc.z.bits as int);
        }
        let side = acc.y.mul(acc.y).add(acc.z.mul(acc.z));
        proof {
            if acc.z.bits >= 0x100 {
                assert(acc.z.bits * acc.z.bits >= 0x1_0000) by (nonlinear_arith)
                    requires
                        acc.z.bits >= 0x100,
                ;
                assert(side.bits > 0);
                crate::approx_funcs::lemma_approx_sqrt_not_below_root_in(side.bits as int, 16);
            }
        }
        let measured_pitch = atan2_i16f16(acc.x.neg(), approx_sqrt_i16f16(side));
        let (pitch, bias_q) = Self::step_angle(self.pitch, self.bias_q, rate.y, measured_pitch, dt);
        self.pitch = pitch;
        self.bias_q = bias_q;
        // roll
        let measured_roll = atan2_i16f16(acc.y, acc.z);
        let (roll, bias_p) = Self::step_angle(self.roll, self.bias_p, rate.x, measured_roll, dt);
        self.roll = roll;
        self.bias_p = bias_p;
        // yaw: the rate over the step
        self.yaw = rate.z.mul(dt);
        proof {
            if acc.x.bits == 0 && acc.y.bits == 0 && acc.z.bits >= 0x100 {
                assert(measured_pitch.bits == 0);
                assert(measured_roll.bits == 0);
                lemma_filter_step_at_rest(dt.bits as int);
            }
        }
    }

    /// Whether one filter step for an angle stays within range (see
    /// `filter_step_fits`).
    fn step_fits(angle: I16F16, bias: I16F16, rate: I16F16, measured: I16F16, dt: I16F16) -> (r: bool)
        ensures
            r == filter_step_fits(
                angle.bits as int,
                bias.bits as int,
                rate.bits as int,
                measured.bits as int,
                dt.bits as int,
            ),
    {
        let deg = I16F16::from_bits(DEGREE_TO_RAD_BITS);
        let c1 = I16F16::from_bits(C1_BITS);
        let c2 = I16F16::from_bits(C2_BITS);
        let scaled = match rate.checked_mul(deg) {
            Some(v) => v,
            None => return false,
        };
        let clean = match scaled.checked_sub(bias) {
            Some(v) => v,
            None => return false,
        };
        let moved = match clean.checked_mul(dt) {
            Some(v) => v,
            None => return false,
        };
        let estimate = match angle.checked_add(moved) {
            Some(v) => v,
            None => return false,
        };
        let e = match estimate.checked_sub(measured) {
            Some(v) => v,
            None => return false,
        };
        proof {
            lemma_third_off_fits(e.bits as int);
        }
        if estimate.checked_sub(e.div(c1)).is_none() {
            return false;
        }
        let speed = match e.checked_div(dt) {
            Some(v) => v,
            None => return false,
        };
        let learned = match speed.checked_mul(c2) {
            Some(v) => v,
            None => return false,
        };
        bias.checked_add(learned).is_some()
    }

    /// Takes in an accelerometer and gyroscope sample at time `now_us`
    /// (microseconds). Within `ACCEL_SAMPLE_PERIOD_MS` of the last sample
    /// nothing happens. Otherwise, with the whole milliseconds elapsed as
    /// the time step, the reading becomes the sample with the offsets
    /// removed (accelerations in g), the pitch and roll take one filter step
    /// each towards the angles of the gravity vector, the yaw becomes the
    /// yaw rate times the time step, and the time is kept. A level drone at
    /// rest stays level.
    pub fn append_new_reading(&mut self, accel: SensorAxis, gyro: SensorAxis, now_us: u64)
        requires
            elapsed_ms_between(now_us, old(self).last_read_time_us) >= ACCEL_SAMPLE_PERIOD_MS ==> sample_fits(
                *old(self),
                accel,
                gyro,
                elapsed_ms_between(now_us, old(self).last_read_time_us) as u64,
            ),
        ensures
            elapsed_ms_between(now_us, old(self).last_read_time_us) < ACCEL_SAMPLE_PERIOD_MS ==> *final(self)
                == *old(self),
            elapsed_ms_between(now_us, old(self).last_read_time_us) >= ACCEL_SAMPLE_PERIOD_MS ==> {
                &&& sampled(
                    *old(self),
                    *final(self),
                    accel,
                    gyro,
                    elapsed_ms_between(now_us, old(self).last_read_time_us) as u64,
                )
                &&& final(self).last_read_time_us == now_us
                &&& level_at_rest(*old(self), accel, gyro) ==> still_level(*final(self))
            },
    {
        let elapsed_ms: u64 = if now_us >= self.last_read_time_us {
            (now_us - self.last_read_time_us) / 1000
        } else {
            0
        };
        if elapsed_ms < ACCEL_SAMPLE_PERIOD_MS {
            return;
        }
        self.take_sample(accel, gyro, elapsed_ms);
        self.last_read_time_us = now_us;
    }

    /// Takes in a sample as `append_new_reading` does where that stays
    /// within range, and says so; within `ACCEL_SAMPLE_PERIOD_MS` of the
    /// last sample it too does nothing and says so. Where the sample would
    /// leave the range (`sample_fits` fails), it leaves the filter as it is
    /// and returns `false`.
    pub fn try_append_new_reading(&mut self, accel: SensorAxis, gyro: SensorAxis, now_us: u64) -> (r: bool)
        ensures
            elapsed_ms_between(now_us, old(self).last_read_time_us) < ACCEL_SAMPLE_PERIOD_MS ==> r && *final(self)
                == *old(self),
            elapsed_ms_between(now_us, old(self).last_read_time_us) >= ACCEL_SAMPLE_PERIOD_MS ==> {
                let elapsed_ms = elapsed_ms_between(now_us, old(self).last_read_time_us) as u64;
                &&& r == sample_fits(*old(self), accel, gyro, elapsed_ms)
                &&& r ==> sampled(*old(self), *final(self), accel, gyro, elapsed_ms)
                    && final(self).last_read_time_us == now_us
                &&& !r ==> *final(self) == *old(self)
            },
    {
        let elapsed_ms: u64 = if now_us >= self.last_read_time_us {
            (now_us - self.last_read_time_us) / 1000
        } else {
            0
        };
        if elapsed_ms < ACCEL_SAMPLE_PERIOD_MS {
            return true;
        }
        let accel_raw = Axis::from_sensor(accel);
        let gyro_raw = Axis::from_sensor(gyro);
        let offset = self.calibration_offset;
        let lsb = I16F16::from_bits(LSB_ACCEL_TO_GS_BITS);
        let (cx, cy, cz) = match (
            accel_raw.x.checked_sub(offset.0.x),
            accel_raw.y.checked_sub(offset.0.y),
            accel_raw.z.checked_sub(offset.0.z),
        ) {
            (Some(cx), Some(cy), Some(cz)) => (cx, cy, cz),
            _ => return false,
        };
        let (gx, gy, gz) = match (
            gyro_raw.x.checked_sub(offset.1.x),
            gyro_raw.y.checked_sub(offset.1.y),
            gyro_raw.z.checked_sub(offset.1.z),
        ) {
            (Some(gx), Some(gy), Some(gz)) => (gx, gy, gz),
            _ => return false,
        };
        if elapsed_ms > 0x7fff {
            return false;
        }
        proof {
            lemma_accel_fits(cx.bits as int);
            lemma_accel_fits(cy.bits as int);
            lemma_accel_fits(cz.bits as int);
        }
        let ax = cx.div(lsb);
        let ay = cy.div(lsb);
        let az = cz.div(lsb);
        let dt = I16F16::from_i32(elapsed_ms as i32).div_int(1000);
        proof {
            lemma_side_square_fits(ay.bits as int, az.bits as int);
        }
        let root = approx_sqrt_i16f16(ay.mul(ay).add(az.mul(az)));
        let minus_ax = ax.neg();
        if !atan2_admissible_check(minus_ax, root) || !atan2_admissible_check(ay, az) {
            return false;
        }
        let measured_pitch = atan2_i16f16(minus_ax, root);
        let measured_roll = atan2_i16f16(ay, az);
        if !Self::step_fits(self.pitch, self.bias_q, gy, measured_pitch, dt) || !Self::step_fits(
            self.roll,
            self.bias_p,
            gx,
            measured_roll,
            dt,
        ) || gz.checked_mul(dt).is_none() {
            return false;
        }
        self.append_new_reading(accel, gyro, now_us);
        true
    }

    /// Pitch and roll in degrees (the pitch negated) and the yaw rate; lift
    /// and pressure zero.
    pub fn get_reading(&self) -> (r: YawPitchRoll)
        requires
            self.pitch.bits != i32::MIN,
            fx_mul_fits(-self.pitch.bits, RAD_TO_DEGREE_BITS as int),
            fx_mul_fits(self.roll.bits as int, RAD_TO_DEGREE_BITS as int),
        ensures
            r.lift.bits == 0 && r.pressure.bits == 0,
            r.yaw == self.yaw,
            r.pitch.bits == fx_mul(-self.pitch.bits, RAD_TO_DEGREE_BITS as int),
            r.roll.bits == fx_mul(self.roll.bits as int, RAD_TO_DEGREE_BITS as int),
    {
        let r2d = I16F16::from_bits(RAD_TO_DEGREE_BITS);
        YawPitchRoll {
            lift: I16F16::from_bits(0),
            yaw: self.yaw,
            pitch: self.pitch.neg().mul(r2d),
            roll: self.roll.mul(r2d),
            pressure: I16F16::from_bits(0),
        }
    }
}

/// A filter step from rest, with no rate and no disagreement, stays at
/// rest.
proof fn lemma_filter_step_at_rest(dt: int)
    requires
        dt != 0,
    ensures
        filter_step(0, 0, 0, 0, dt) == (0int, 0int),
        fx_mul(0, dt) == 0,
{
    assert(fx_mul(0, DEGREE_TO_RAD_BITS as int) == 0);
    assert(fx_mul(0, dt) == 0);
    assert(div_toward_zero(0, C1_BITS as int) == 0);
    assert(div_toward_zero(0, dt) == 0) by {
        if dt < 0 {
            crate::fixed_point::lemma_div_by_negative(0, -dt);
        }
    }
    assert(fx_mul(0, C2_BITS as int) == 0);
}

/// A third of a number never leaves the range of two thirds of it.
proof fn lemma_third_off_fits(e: int)
    requires
        fits_i32(e),
    ensures
        fits_i32(div_toward_zero(e * 0x10000, C1_BITS as int)),
{
    if e >= 0 {
        assert(e * 0x10000 / 0x1_8000 <= e) by (nonlinear_arith)
            requires
                e >= 0,
        ;
        vstd::arithmetic::div_mod::lemma_div_pos_is_pos(e * 0x10000, 0x1_8000);
    } else {
        assert((-e) * 0x10000 / 0x1_8000 <= -e) by (nonlinear_arith)
            requires
                e < 0,
        ;
        vstd::arithmetic::div_mod::lemma_div_pos_is_pos((-e) * 0x10000, 0x1_8000);
    }
}

/// The squares of two accelerations in g (each at most 2 in magnitude)
/// and their sum stay small.
proof fn lemma_side_square_fits(ay: int, az: int)
    requires
        -0x2_0000 <= ay <= 0x2_0000,
        -0x2_0000 <= az <= 0x2_0000,
    ensures
        fx_mul_fits(ay, ay),
        fx_mul_fits(az, az),
        0 <= fx_mul(ay, ay) <= 0x4_0000,
        0 <= fx_mul(az, az) <= 0x4_0000,
{
    assert(0 <= ay * ay <= 0x4_0000_0000) by (nonlinear_arith)
        requires
            -0x2_0000 <= ay <= 0x2_0000,
    ;
    assert(0 <= az * az <= 0x4_0000_0000) by (nonlinear_arith)
        requires
            -0x2_0000 <= az <= 0x2_0000,
    ;
}

/// A filter at rest (angles and biases zero) that takes a sample with no
/// rate (each gyroscope reading equal to its offset) moves its pitch and
/// its roll two thirds of the way (one over `C1`) towards the angles of the
/// measured gravity vector: the pitch towards the arc tangent of the
/// negated x acceleration over the root of `y^2 + z^2`, the roll towards
/// the arc tangent of the y acceleration over the z acceleration. Each new
/// angle has the sign of the angle it moves towards (and is not zero once
/// that angle is two units of the last place or more away from zero).
pub proof fn lemma_sample_at_rest_moves_towards_gravity(
    f: KalmanFilter,
    accel: SensorAxis,
    gyro: SensorAxis,
    elapsed_ms: u64,
)
    requires
        f.pitch.bits == 0,
        f.roll.bits == 0,
        f.bias_p.bits == 0,
        f.bias_q.bits == 0,
        gyro.x * 0x10000 == f.calibration_offset.1.x.bits,
        gyro.y * 0x10000 == f.calibration_offset.1.y.bits,
        gyro.z * 0x10000 == f.calibration_offset.1.z.bits,
    ensures
        ({
            let ax = div_toward_zero((accel.x * 0x10000 - f.calibration_offset.0.x.bits) * 0x10000, 0x4000_0000);
            let ay = div_toward_zero((accel.y * 0x10000 - f.calibration_offset.0.y.bits) * 0x10000, 0x4000_0000);
            let az = div_toward_zero((accel.z * 0x10000 - f.calibration_offset.0.z.bits) * 0x10000, 0x4000_0000);
            let gravity_pitch = cordic_atan2_bits(-ax, approx_sqrt_i16f16_bits((ay * ay) / 0x10000 + (az * az) / 0x10000));
            let gravity_roll = cordic_atan2_bits(ay, az);
            let (pitch, bias_q, roll, bias_p, yaw) = after_sample(f, accel, gyro, elapsed_ms);
            &&& pitch == div_toward_zero(gravity_pitch * 0x10000, 0x1_8000)
            &&& roll == div_toward_zero(gravity_roll * 0x10000, 0x1_8000)
            &&& yaw == 0
            &&& (gravity_pitch >= 0 ==> pitch >= 0) && (gravity_pitch <= 0 ==> pitch <= 0)
            &&& (gravity_pitch >= 2 ==> pitch > 0) && (gravity_pitch <= -2 ==> pitch < 0)
            &&& (gravity_roll >= 0 ==> roll >= 0) && (gravity_roll <= 0 ==> roll <= 0)
            &&& (gravity_roll >= 2 ==> roll > 0) && (gravity_roll <= -2 ==> roll < 0)
        }),
{
    let (ax, ay, az, gx, gy, gz) = sample_reading(f.calibration_offset, accel, gyro);
    let dt = dt_bits(elapsed_ms as int);
    let (mp, mr) = measured_angles(ax, ay, az);
    assert(gx == 0 && gy == 0 && gz == 0);
    assert(fx_mul(0, DEGREE_TO_RAD_BITS as int) == 0);
    assert(fx_mul(0, dt) == 0);
    assert(fx_mul(0, C2_BITS as int) == 0);
    lemma_div_toward_zero_negates(mp * 0x10000, C1_BITS as int);
    lemma_div_toward_zero_negates(mr * 0x10000, C1_BITS as int);
    crate::fixed_point::lemma_div_toward_zero_magnitudes(mp * 0x10000, C1_BITS as int);
    crate::fixed_point::lemma_div_toward_zero_magnitudes(mr * 0x10000, C1_BITS as int);
    lemma_pull_keeps_sign(mp);
    lemma_pull_keeps_sign(mr);
}

/// Two thirds of an angle, rounded towards zero, keeps its sign, and is
/// not zero once the angle is at least two units away from zero.
proof fn lemma_pull_keeps_sign(m: int)
    ensures
        m >= 0 ==> div_toward_zero(m * 0x10000, C1_BITS as int) >= 0,
        m <= 0 ==> div_toward_zero(m * 0x10000, C1_BITS as int) <= 0,
        m >= 2 ==> div_toward_zero(m * 0x10000, C1_BITS as int) > 0,
        m <= -2 ==> div_toward_zero(m * 0x10000, C1_BITS as int) < 0,
{
    let a = if m >= 0 { m } else { -m };
    assert(a * 0x10000 >= 0) by (nonlinear_arith)
        requires
            a >= 0,
    ;
    vstd::arithmetic::div_mod::lemma_div_pos_is_pos(a * 0x10000, C1_BITS as int);
    if a >= 2 {
        assert(a * 0x10000 >= 0x2_0000) by (nonlinear_arith)
            requires
                a >= 2,
        ;
        vstd::arithmetic::div_mod::lemma_div_is_ordered(0x2_0000, a * 0x10000, C1_BITS as int);
    }
    if m < 0 {
        assert((-m) * 0x10000 == -(m * 0x10000));
    }
}

/// Rounding a quotient towards zero commutes with negating the dividend.
proof fn lemma_div_toward_zero_negates(a: int, b: int)
    requires
        b > 0,
    ensures
        div_toward_zero(-a, b) == -div_toward_zero(a, b),
{
}

} // verus!
