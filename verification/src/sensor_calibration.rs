//! The calibration that the flight modes use: while the drone stands
//! still, sensor readings, attitude angles and the air pressure are
//! collected; their averages become the offsets that the filters remove.
//! Whole-number sums (`I32F0` in the sensor code) are held as `i32`.
use vstd::prelude::*;

use crate::axis::Axis;
use crate::calibration_state::Axis as SensorAxis;
use crate::fixed_point::{
    div_toward_zero, fits_i32, fits_i64, floor_of, lemma_div_toward_zero_magnitudes, I16F16, I26F6,
};
use crate::trig::cordic_atan2_bits;
use crate::yaw_pitch_roll::{
    quaternion_angles_admissible, quaternion_terms, quaternion_terms_fit, ypr_of, zero_ypr,
    Quaternion, YawPitchRoll,
};

verus! {

/// The accelerometer's reading for one g, taken off the z offset.
pub const LSB_FOR_ACCEL: i32 = 16384;

/// The weight of a new pressure reading, 0.1, as `I26F6` bits (rounded).
pub const BARO_ALPHA_BITS: i32 = 6;

/// The weight of the pressure average, 0.9, as `I26F6` bits (rounded).
pub const BARO_BETA_BITS: i32 = 58;

/// The collected sums and the offsets found from them.
pub struct CalibrationState {
    pub accelerometer_sum: Axis<i32>,
    pub gyro_sum: Axis<i32>,
    pub sample_cnt: I16F16,
    pub accelerometer_offset: Axis<I16F16>,
    pub gyro_offset: Axis<I16F16>,
    pub ypr_sum: Axis<I16F16>,
    pub ypr_offset: YawPitchRoll,
    pub pressure_average: I26F6,
}

/// The yaw, pitch and roll bits of a quaternion's angles.
pub open spec fn quaternion_angles(q: Quaternion) -> (int, int, int) {
    let (yaw_y, yaw_x, gx, gy, gz, sq) = quaternion_terms(q);
    (
        div_toward_zero(cordic_atan2_bits(yaw_y, yaw_x) * 0x10000, 0x20000),
        cordic_atan2_bits(gx, crate::approx_funcs::approx_sqrt_i16f16_bits(sq)),
        cordic_atan2_bits(gy, gz),
    )
}

/// The bits of the pressure average after a new reading.
pub open spec fn pressure_average_after(average: int, pressure: int) -> int {
    (average * BARO_BETA_BITS) / 64 + pressure * BARO_ALPHA_BITS
}

/// Whether a sample can be added: the angles can be computed and every sum
/// stays within range.
pub open spec fn sample_fits(s: CalibrationState, q: Quaternion, accel: SensorAxis, gyro: SensorAxis, pressure: u32) -> bool {
    let (yaw, pitch, roll) = quaternion_angles(q);
    &&& quaternion_terms_fit(q)
    &&& quaternion_angles_admissible(q)
    &&& fits_i32(s.accelerometer_sum.x + accel.x) && fits_i32(s.accelerometer_sum.y + accel.y)
    &&& fits_i32(s.accelerometer_sum.z + accel.z)
    &&& fits_i32(s.gyro_sum.x + gyro.x) && fits_i32(s.gyro_sum.y + gyro.y) && fits_i32(s.gyro_sum.z + gyro.z)
    &&& fits_i32(s.ypr_sum.x.bits + yaw) && fits_i32(s.ypr_sum.y.bits + pitch)
    &&& fits_i32(s.ypr_sum.z.bits + roll)
    &&& fits_i32(s.sample_cnt.bits + 0x10000)
    &&& pressure < 0x200_0000
    &&& fits_i32(pressure_average_after(s.pressure_average.bits as int, pressure as int))
}

/// The number of samples as the averages divide by it: the count's
/// integer part.
pub open spec fn whole_count(s: CalibrationState) -> int {
    floor_of(s.sample_cnt.bits)
}

/// The bits of an offset: the average of a sum, as an `I16F16` number.
pub open spec fn average_bits(sum: int, count: int) -> int {
    div_toward_zero(sum, count) * 0x10000
}

/// Whether the averages can be taken: a count, and every average within
/// `I16F16` (the z offset also after one g is taken off).
pub open spec fn finalize_fits(s: CalibrationState) -> bool {
    let n = whole_count(s);
    &&& n != 0
    &&& s.sample_cnt.bits != 0
    &&& fits_i32(average_bits(s.accelerometer_sum.x as int, n))
    &&& fits_i32(average_bits(s.accelerometer_sum.y as int, n))
    &&& fits_i32(average_bits(s.accelerometer_sum.z as int, n))
    &&& fits_i32(average_bits(s.accelerometer_sum.z as int, n) - LSB_FOR_ACCEL * 0x10000)
    &&& fits_i32(average_bits(s.gyro_sum.x as int, n))
    &&& fits_i32(average_bits(s.gyro_sum.y as int, n))
    &&& fits_i32(average_bits(s.gyro_sum.z as int, n))
    &&& fits_i32(div_toward_zero(s.ypr_sum.x.bits * 0x10000, s.sample_cnt.bits as int))
    &&& fits_i32(div_toward_zero(s.ypr_sum.y.bits * 0x10000, s.sample_cnt.bits as int))
    &&& fits_i32(div_toward_zero(s.ypr_sum.z.bits * 0x10000, s.sample_cnt.bits as int))
}

/// Integer division rounding towards zero (as `I32F0` divides).
fn int_div(a: i32, b: i32) -> (r: i32)
    requires
        b != 0,
        fits_i32(div_toward_zero(a as int, b as int)),
    ensures
        r == div_toward_zero(a as int, b as int),
{
    let am: i64 = if a >= 0 { a as i64 } else { -(a as i64) };
    let bm: i64 = if b >= 0 { b as i64 } else { -(b as i64) };
    let q: i64 = am / bm;
    proof {
        lemma_div_toward_zero_magnitudes(a as int, b as int);
    }
    if (a < 0) != (b < 0) {
        (-q) as i32
    } else {
        q as i32
    }
}

impl CalibrationState {
    /// Nothing collected, all offsets zero.
    pub fn new() -> (r: Self)
        ensures
            r.accelerometer_sum == (Axis::<i32> { x: 0, y: 0, z: 0 }),
            r.gyro_sum == (Axis::<i32> { x: 0, y: 0, z: 0 }),
            r.sample_cnt.bits == 0,
            r.ypr_sum.x.bits == 0 && r.ypr_sum.y.bits == 0 && r.ypr_sum.z.bits == 0,
            r.accelerometer_offset.x.bits == 0 && r.accelerometer_offset.y.bits == 0
                && r.accelerometer_offset.z.bits == 0,
            r.gyro_offset.x.bits == 0 && r.gyro_offset.y.bits == 0 && r.gyro_offset.z.bits == 0,
            r.ypr_offset == zero_ypr(),
            r.pressure_average.bits == 0,
    {
        let z = I16F16::from_bits(0);
        CalibrationState {
            accelerometer_sum: Axis { x: 0, y: 0, z: 0 },
            gyro_sum: Axis { x: 0, y: 0, z: 0 },
            sample_cnt: z,
            accelerometer_offset: Axis { x: z, y: z, z: z },
            gyro_offset: Axis { x: z, y: z, z: z },
            ypr_sum: Axis { x: z, y: z, z: z },
            ypr_offset: YawPitchRoll::new(),
            pressure_average: I26F6::from_bits(0),
        }
    }

    /// Starts over, as `new` leaves it.
    pub fn reset(&mut self)
        ensures
            final(self).accelerometer_sum == (Axis::<i32> { x: 0, y: 0, z: 0 }),
            final(self).gyro_sum == (Axis::<i32> { x: 0, y: 0, z: 0 }),
            final(self).sample_cnt.bits == 0,
            final(self).ypr_sum.x.bits == 0 && final(self).ypr_sum.y.bits == 0 && final(self).ypr_sum.z.bits
                == 0,
            final(self).accelerometer_offset.x.bits == 0 && final(self).accelerometer_offset.y.bits == 0
                && final(self).accelerometer_offset.z.bits == 0,
            final(self).gyro_offset.x.bits == 0 && final(self).gyro_offset.y.bits == 0
                && final(self).gyro_offset.z.bits == 0,
            final(self).ypr_offset == zero_ypr(),
            final(self).pressure_average.bits == 0,
    {
        *self = CalibrationState::new();
    }

    /// Adds a sample: the attitude of the quaternion, the raw accelerometer
    /// and gyroscope readings, and the pressure (into a running average
    /// that keeps 0.9 of the old value and takes 0.1 of the new).
    pub fn read_new_sample(&mut self, q: Quaternion, accel: SensorAxis, gyro: SensorAxis, pressure: u32)
        requires
            sample_fits(*old(self), q, accel, gyro, pressure),
        ensures
            ({
                let (yaw, pitch, roll) = quaternion_angles(q);
                &&& final(self).accelerometer_sum == (Axis::<i32> {
                    x: (old(self).accelerometer_sum.x + accel.x) as i32,
                    y: (old(self).accelerometer_sum.y + accel.y) as i32,
                    z: (old(self).accelerometer_sum.z + accel.z) as i32,
                })
                &&& final(self).gyro_sum == (Axis::<i32> {
                    x: (old(self).gyro_sum.x + gyro.x) as i32,
                    y: (old(self).gyro_sum.y + gyro.y) as i32,
                    z: (old(self).gyro_sum.z + gyro.z) as i32,
                })
                &&& final(self).ypr_sum.x.bits == old(self).ypr_sum.x.bits + yaw
                &&& final(self).ypr_sum.y.bits == old(self).ypr_sum.y.bits + pitch
                &&& final(self).ypr_sum.z.bits == old(self).ypr_sum.z.bits + roll
                &&& final(self).sample_cnt.bits == old(self).sample_cnt.bits + 0x10000
                &&& final(self).pressure_average.bits == pressure_average_after(
                    old(self).pressure_average.bits as int,
                    pressure as int,
                )
                &&& final(self).accelerometer_offset == old(self).accelerometer_offset
                &&& final(self).gyro_offset == old(self).gyro_offset
                &&& final(self).ypr_offset == old(self).ypr_offset
            }),
    {
        let ypr_sample = YawPitchRoll::from_quaternion(q);
        self.accelerometer_sum = self.accelerometer_sum.add_sensor(accel);
        self.gyro_sum = self.gyro_sum.add_sensor(gyro);
        self.ypr_sum = Axis {
            x: self.ypr_sum.x.add(ypr_sample.yaw),
            y: self.ypr_sum.y.add(ypr_sample.pitch),
            z: self.ypr_sum.z.add(ypr_sample.roll),
        };
        self.sample_cnt = self.sample_cnt.add(I16F16::from_i32(1));
        let beta = I26F6::from_bits(BARO_BETA_BITS);
        let alpha = I26F6::from_bits(BARO_ALPHA_BITS);
        let reading = I26F6::from_u32(pressure);
        proof {
            let a = self.pressure_average.bits as int;
            assert(-0x8000_0000 * 58 * 0x400_0000 <= a * BARO_BETA_BITS * 0x400_0000 <= 0x8000_0000 * 58
                * 0x400_0000) by (nonlinear_arith)
                requires
                    -0x8000_0000 <= a <= 0x8000_0000,
            ;
            let b = reading.bits as int;
            assert(b * BARO_ALPHA_BITS == (pressure * BARO_ALPHA_BITS) * 64);
            vstd::arithmetic::div_mod::lemma_div_multiples_vanish(pressure * BARO_ALPHA_BITS, 64);
            assert(0 <= b * BARO_ALPHA_BITS * 0x400_0000 <= 0x200_0000 * 64 * 6 * 0x400_0000)
                by (nonlinear_arith)
                requires
                    0 <= b <= 0x200_0000 * 64,
            ;
        }
        self.pressure_average = self.pressure_average.mul(beta).add(reading.mul(alpha));
    }

    /// Adds a sample as `read_new_sample` does where it stays within range
    /// (`sample_fits`), and says so; otherwise changes nothing and returns
    /// `false`.
    pub fn try_read_new_sample(&mut self, q: Quaternion, accel: SensorAxis, gyro: SensorAxis, pressure: u32) -> (r:
        bool)
        ensures
            r == sample_fits(*old(self), q, accel, gyro, pressure),
            r ==> ({
                let (yaw, pitch, roll) = quaternion_angles(q);
                &&& final(self).accelerometer_sum == (Axis::<i32> {
                    x: (old(self).accelerometer_sum.x + accel.x) as i32,
                    y: (old(self).accelerometer_sum.y + accel.y) as i32,
                    z: (old(self).accelerometer_sum.z + accel.z) as i32,
                })
                &&& final(self).gyro_sum == (Axis::<i32> {
                    x: (old(self).gyro_sum.x + gyro.x) as i32,
                    y: (old(self).gyro_sum.y + gyro.y) as i32,
                    z: (old(self).gyro_sum.z + gyro.z) as i32,
                })
                &&& final(self).ypr_sum.x.bits == old(self).ypr_sum.x.bits + yaw
                &&& final(self).ypr_sum.y.bits == old(self).ypr_sum.y.bits + pitch
                &&& final(self).ypr_sum.z.bits == old(self).ypr_sum.z.bits + roll
                &&& final(self).sample_cnt.bits == old(self).sample_cnt.bits + 0x10000
                &&& final(self).pressure_average.bits == pressure_average_after(
                    old(self).pressure_average.bits as int,
                    pressure as int,
                )
                &&& final(self).accelerometer_offset == old(self).accelerometer_offset
                &&& final(self).gyro_offset == old(self).gyro_offset
                &&& final(self).ypr_offset == old(self).ypr_offset
            }),
            !r ==> *final(self) == *old(self),
    {
        let sample = match YawPitchRoll::try_from_quaternion(q) {
            Some(v) => v,
            None => return false,
        };
        let sums_fit = {
            let a = &self.accelerometer_sum;
            let g = &self.gyro_sum;
            a.x.checked_add(accel.x as i32).is_some() && a.y.checked_add(accel.y as i32).is_some()
                && a.z.checked_add(accel.z as i32).is_some() && g.x.checked_add(gyro.x as i32).is_some()
                && g.y.checked_add(gyro.y as i32).is_some() && g.z.checked_add(gyro.z as i32).is_some()
        };
        if !sums_fit || self.ypr_sum.x.checked_add(sample.yaw).is_none() || self.ypr_sum.y.checked_add(
            sample.pitch,
        ).is_none() || self.ypr_sum.z.checked_add(sample.roll).is_none()
            || self.sample_cnt.checked_add(I16F16::from_i32(1)).is_none() || pressure >= 0x200_0000 {
            return false;
        }
        let average: i64 = (self.pressure_average.bits as i64 * BARO_BETA_BITS as i64) / 64;
        let total: i64 = average + pressure as i64 * BARO_ALPHA_BITS as i64;
        if total < i32::MIN as i64 || total > i32::MAX as i64 {
            return false;
        }
        self.read_new_sample(q, accel, gyro, pressure);
        true
    }

    /// Sets the offsets to the averages: the accelerometer's and the
    /// gyroscope's sums over the whole count (one g taken off the
    /// accelerometer's z axis), the attitude sums over the count.
    pub fn finalize_calibration(&mut self)
        requires
            finalize_fits(*old(self)),
        ensures
            ({
                let n = whole_count(*old(self));
                let c = old(self).sample_cnt.bits as int;
                &&& final(self).accelerometer_offset.x.bits == average_bits(
                    old(self).accelerometer_sum.x as int,
                    n,
                )
                &&& final(self).accelerometer_offset.y.bits == average_bits(
                    old(self).accelerometer_sum.y as int,
                    n,
                )
                &&& final(self).accelerometer_offset.z.bits == average_bits(
                    old(self).accelerometer_sum.z as int,
                    n,
                ) - LSB_FOR_ACCEL * 0x10000
                &&& final(self).gyro_offset.x.bits == average_bits(old(self).gyro_sum.x as int, n)
                &&& final(self).gyro_offset.y.bits == average_bits(old(self).gyro_sum.y as int, n)
                &&& final(self).gyro_offset.z.bits == average_bits(old(self).gyro_sum.z as int, n)
                &&& final(self).ypr_offset == ypr_of(
                    0,
                    div_toward_zero(old(self).ypr_sum.x.bits * 0x10000, c),
                    div_toward_zero(old(self).ypr_sum.y.bits * 0x10000, c),
                    div_toward_zero(old(self).ypr_sum.z.bits * 0x10000, c),
                    0,
                )
                &&& final(self).accelerometer_sum == old(self).accelerometer_sum
                &&& final(self).gyro_sum == old(self).gyro_sum
                &&& final(self).ypr_sum == old(self).ypr_sum
                &&& final(self).sample_cnt == old(self).sample_cnt
                &&& final(self).pressure_average == old(self).pressure_average
            }),
    {
        let n = self.sample_cnt.to_i32();
        proof {
            lemma_average_fits(self.accelerometer_sum.x as int, n as int);
            lemma_average_fits(self.accelerometer_sum.y as int, n as int);
            lemma_average_fits(self.accelerometer_sum.z as int, n as int);
            lemma_average_fits(self.gyro_sum.x as int, n as int);
            lemma_average_fits(self.gyro_sum.y as int, n as int);
            lemma_average_fits(self.gyro_sum.z as int, n as int);
        }
        let mut accel_offset = Axis {
            x: I16F16::from_i32(int_div(self.accelerometer_sum.x, n)),
            y: I16F16::from_i32(int_div(self.accelerometer_sum.y, n)),
            z: I16F16::from_i32(int_div(self.accelerometer_sum.z, n)),
        };
        accel_offset.z = accel_offset.z.sub(I16F16::from_i32(LSB_FOR_ACCEL));
        self.accelerometer_offset = accel_offset;
        self.gyro_offset = Axis {
            x: I16F16::from_i32(int_div(self.gyro_sum.x, n)),
            y: I16F16::from_i32(int_div(self.gyro_sum.y, n)),
            z: I16F16::from_i32(int_div(self.gyro_sum.z, n)),
        };
        self.ypr_offset = YawPitchRoll {
            lift: I16F16::from_i32(0),
            yaw: self.ypr_sum.x.div(self.sample_cnt),
            pitch: self.ypr_sum.y.div(self.sample_cnt),
            roll: self.ypr_sum.z.div(self.sample_cnt),
            pressure: I16F16::from_i32(0),
        };
    }
}

/// An average whose `I16F16` bits fit is itself within `i32`.
proof fn lemma_average_fits(sum: int, n: int)
    requires
        n != 0,
        fits_i32(div_toward_zero(sum, n) * 0x10000),
    ensures
        fits_i32(div_toward_zero(sum, n)),
{
}

} // verus!
