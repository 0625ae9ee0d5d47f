//! Removing the constant offset of the accelerometer and the gyroscope:
//! samples taken while the drone stands still are averaged, and the
//! averages are subtracted from later readings.
use vstd::prelude::*;

verus! {

/// One reading of a three-axis sensor.
#[derive(Copy, Clone, Debug, PartialEq, Eq, Structural)]
pub struct Axis {
    pub x: i16,
    pub y: i16,
    pub z: i16,
}

/// Running sums of the readings, one per axis.
#[derive(Copy, Clone, Debug, PartialEq, Eq, Structural)]
struct AxisI32 {
    pub x: i32,
    pub y: i32,
    pub z: i32,
}

/// Integer division that rounds towards zero, as Rust's `/` does.
pub open spec fn trunc_div(a: int, b: int) -> int {
    if a >= 0 {
        a / b
    } else {
        -((-a) / b)
    }
}

/// `a - b` wrapped into the range of `i16`.
pub open spec fn wrapping_sub_i16(a: i16, b: i16) -> i16 {
    let d = a - b;
    if d > i16::MAX {
        (d - 0x10000) as i16
    } else if d < i16::MIN {
        (d + 0x10000) as i16
    } else {
        d as i16
    }
}

/// A reading with an offset removed from each axis.
pub open spec fn corrected(raw: Axis, offset: Axis) -> Axis {
    Axis {
        x: wrapping_sub_i16(raw.x, offset.x),
        y: wrapping_sub_i16(raw.y, offset.y),
        z: wrapping_sub_i16(raw.z, offset.z),
    }
}

pub open spec fn zero_axis() -> Axis {
    Axis { x: 0, y: 0, z: 0 }
}

/// Collects samples and, once finished, corrects readings by their average.
pub struct CalibrationState {
    accel: Axis,
    gyro: Axis,
    accel_sum: AxisI32,
    gyro_sum: AxisI32,
    samples: u32,
    calib_done: bool,
}

impl CalibrationState {
    /// Whether the averages have been computed.
    pub closed spec fn is_done(&self) -> bool {
        self.calib_done
    }

    /// How many samples were collected.
    pub closed spec fn sample_count(&self) -> nat {
        self.samples as nat
    }

    /// The sums of the collected accelerometer samples.
    pub closed spec fn accel_sums(&self) -> (int, int, int) {
        (self.accel_sum.x as int, self.accel_sum.y as int, self.accel_sum.z as int)
    }

    /// The sums of the collected gyroscope samples.
    pub closed spec fn gyro_sums(&self) -> (int, int, int) {
        (self.gyro_sum.x as int, self.gyro_sum.y as int, self.gyro_sum.z as int)
    }

    /// The accelerometer offset that is removed.
    pub closed spec fn accel_offset(&self) -> Axis {
        self.accel
    }

    /// The gyroscope offset that is removed.
    pub closed spec fn gyro_offset(&self) -> Axis {
        self.gyro
    }

    /// Whether adding `accel` and `gyro` keeps every sum within `i32`.
    pub open spec fn can_accumulate(&self, accel: Axis, gyro: Axis) -> bool {
        &&& self.sample_count() < u32::MAX
        &&& i32::MIN <= self.accel_sums().0 + accel.x <= i32::MAX
        &&& i32::MIN <= self.accel_sums().1 + accel.y <= i32::MAX
        &&& i32::MIN <= self.accel_sums().2 + accel.z <= i32::MAX
        &&& i32::MIN <= self.gyro_sums().0 + gyro.x <= i32::MAX
        &&& i32::MIN <= self.gyro_sums().1 + gyro.y <= i32::MAX
        &&& i32::MIN <= self.gyro_sums().2 + gyro.z <= i32::MAX
    }

    /// The state of a calibration that has not started collecting.
    pub open spec fn is_fresh(&self) -> bool {
        &&& !self.is_done()
        &&& self.sample_count() == 0
        &&& self.accel_sums() == (0int, 0int, 0int)
        &&& self.gyro_sums() == (0int, 0int, 0int)
        &&& self.accel_offset() == zero_axis()
        &&& self.gyro_offset() == zero_axis()
    }

    /// The sample count as the averages divide by it: taken as an `i32`,
    /// so counts above `i32::MAX` wrap around to negative numbers.
    pub open spec fn divisor(&self) -> int {
        if self.sample_count() <= i32::MAX {
            self.sample_count() as int
        } else {
            self.sample_count() - 0x1_0000_0000
        }
    }

    /// The average of a sum over the collected samples, rounded towards
    /// zero and cast to `i16`.
    pub open spec fn average(&self, sum: int) -> i16 {
        trunc_div(sum, self.divisor()) as i16
    }

    pub fn new() -> (r: Self)
        ensures
            r.is_fresh(),
    {
        CalibrationState {
            accel: Axis { x: 0, y: 0, z: 0 },
            gyro: Axis { x: 0, y: 0, z: 0 },
            accel_sum: AxisI32 { x: 0, y: 0, z: 0 },
            gyro_sum: AxisI32 { x: 0, y: 0, z: 0 },
            samples: 0,
            calib_done: false,
        }
    }

    /// Forgets all samples and the offsets.
    pub fn start_calibration(&mut self)
        ensures
            final(self).is_fresh(),
    {
        self.accel = Axis { x: 0, y: 0, z: 0 };
        self.gyro = Axis { x: 0, y: 0, z: 0 };
        self.accel_sum = AxisI32 { x: 0, y: 0, z: 0 };
        self.gyro_sum = AxisI32 { x: 0, y: 0, z: 0 };
        self.samples = 0;
        self.calib_done = false;
    }

    /// Adds one sample of each sensor to the sums.
    pub fn accumulate_calibration(&mut self, accel: Axis, gyro: Axis)
        requires
            old(self).can_accumulate(accel, gyro),
        ensures
            final(self).sample_count() == old(self).sample_count() + 1,
            final(self).accel_sums() == (
                old(self).accel_sums().0 + accel.x,
                old(self).accel_sums().1 + accel.y,
                old(self).accel_sums().2 + accel.z,
            ),
            final(self).gyro_sums() == (
                old(self).gyro_sums().0 + gyro.x,
                old(self).gyro_sums().1 + gyro.y,
                old(self).gyro_sums().2 + gyro.z,
            ),
            final(self).is_done() == old(self).is_done(),
            final(self).accel_offset() == old(self).accel_offset(),
            final(self).gyro_offset() == old(self).gyro_offset(),
    {
        self.accel_sum.x += accel.x as i32;
        self.accel_sum.y += accel.y as i32;
        self.accel_sum.z += accel.z as i32;

        self.gyro_sum.x += gyro.x as i32;
        self.gyro_sum.y += gyro.y as i32;
        self.gyro_sum.z += gyro.z as i32;
        self.samples += 1;
    }

    /// Sets the offsets to the averages of the collected samples. Without
    /// samples nothing changes.
    pub fn finish_calibration(&mut self)
        requires
            old(self).divisor() == -1 ==> {
                &&& old(self).accel_sums().0 != i32::MIN && old(self).accel_sums().1 != i32::MIN
                &&& old(self).accel_sums().2 != i32::MIN && old(self).gyro_sums().0 != i32::MIN
                &&& old(self).gyro_sums().1 != i32::MIN && old(self).gyro_sums().2 != i32::MIN
            },
        ensures
            old(self).sample_count() == 0 ==> *final(self) == *old(self),
            old(self).sample_count() > 0 ==> {
                &&& final(self).is_done()
                &&& final(self).accel_offset() == Axis {
                    x: old(self).average(old(self).accel_sums().0),
                    y: old(self).average(old(self).accel_sums().1),
                    z: old(self).average(old(self).accel_sums().2),
                }
                &&& final(self).gyro_offset() == Axis {
                    x: old(self).average(old(self).gyro_sums().0),
                    y: old(self).average(old(self).gyro_sums().1),
                    z: old(self).average(old(self).gyro_sums().2),
                }
                &&& final(self).sample_count() == old(self).sample_count()
                &&& final(self).accel_sums() == old(self).accel_sums()
                &&& final(self).gyro_sums() == old(self).gyro_sums()
            },
    {
        if self.samples == 0 {
            return;
        }
        let count = self.samples;
        let n = count as i32;
        assert(count <= 0x7fff_ffff ==> n == count) by (bit_vector)
            requires
                n == count as i32,
        ;
        assert(count > 0x7fff_ffff ==> n == count - 0x1_0000_0000) by (bit_vector)
            requires
                n == count as i32,
        ;
        proof {
            if n < 0 {
                lemma_div_by_negative_divisor(self.accel_sum.x as int, n as int);
                lemma_div_by_negative_divisor(self.accel_sum.y as int, n as int);
                lemma_div_by_negative_divisor(self.accel_sum.z as int, n as int);
                lemma_div_by_negative_divisor(self.gyro_sum.x as int, n as int);
                lemma_div_by_negative_divisor(self.gyro_sum.y as int, n as int);
                lemma_div_by_negative_divisor(self.gyro_sum.z as int, n as int);
            }
        }
        self.accel = Axis {
            x: (self.accel_sum.x / n) as i16,
            y: (self.accel_sum.y / n) as i16,
            z: (self.accel_sum.z / n) as i16,
        };

        self.gyro = Axis {
            x: (self.gyro_sum.x / n) as i16,
            y: (self.gyro_sum.y / n) as i16,
            z: (self.gyro_sum.z / n) as i16,
        };
        self.calib_done = true;
    }

    /// Removes the offsets from a reading of each sensor, wrapping around
    /// the `i16` range; before the calibration is finished the readings are
    /// returned unchanged.
    pub fn apply_calibration(&mut self, accel: Axis, gyro: Axis) -> (r: (Axis, Axis))
        ensures
            *final(self) == *old(self),
            !old(self).is_done() ==> r == (accel, gyro),
            old(self).is_done() ==> r == (
                corrected(accel, old(self).accel_offset()),
                corrected(gyro, old(self).gyro_offset()),
            ),
    {
        if !self.calib_done {
            return (accel, gyro);
        }
        (
            Axis {
                x: accel.x.wrapping_sub(self.accel.x),
                y: accel.y.wrapping_sub(self.accel.y),
                z: accel.z.wrapping_sub(self.accel.z),
            },
            Axis {
                x: gyro.x.wrapping_sub(self.gyro.x),
                y: gyro.y.wrapping_sub(self.gyro.y),
                z: gyro.z.wrapping_sub(self.gyro.z),
            },
        )
    }
}

/// Dividing by a negative number negates the quotient of the magnitudes,
/// whatever the dividend's sign.
pub proof fn lemma_div_by_negative_divisor(a: int, b: int)
    requires
        b < 0,
    ensures
        a / b == -(a / (-b)),
        (-a) / b == -((-a) / (-b)),
        a >= 0 ==> 0 <= a / (-b) <= a,
        a < 0 ==> 0 <= (-a) / (-b) <= -a,
        a < 0 && b < -1 ==> (-a) / (-b) <= (-a) / 2,
{
    crate::fixed_point::lemma_div_by_negative(a, -b);
    crate::fixed_point::lemma_div_by_negative(-a, -b);
    let m = if a >= 0 { a } else { -a };
    vstd::arithmetic::div_mod::lemma_div_pos_is_pos(m, -b);
    vstd::arithmetic::div_mod::lemma_div_is_ordered_by_denominator(m, 1, -b);
    if b < -1 {
        vstd::arithmetic::div_mod::lemma_div_is_ordered_by_denominator(m, 2, -b);
    }
}

/// The average of `k` copies of a value is that value.
pub proof fn lemma_trunc_div_of_multiple(a: int, k: int)
    requires
        k > 0,
    ensures
        trunc_div(k * a, k) == a,
{
    if a >= 0 {
        assert(k * a >= 0) by (nonlinear_arith)
            requires
                k > 0,
                a >= 0,
        ;
        vstd::arithmetic::div_mod::lemma_div_multiples_vanish(a, k);
    } else {
        assert(k * a < 0) by (nonlinear_arith)
            requires
                k > 0,
                a < 0,
        ;
        assert(-(k * a) == k * (-a)) by (nonlinear_arith);
        vstd::arithmetic::div_mod::lemma_div_multiples_vanish(-a, k);
    }
}

/// A sum of `k` values that all lie in `[lo, hi]` has its average, rounded
/// towards zero, in `[lo, hi]` too.
pub proof fn lemma_trunc_div_within(s: int, k: int, lo: int, hi: int)
    requires
        k > 0,
        k * lo <= s <= k * hi,
    ensures
        lo <= trunc_div(s, k) <= hi,
{
    if s >= 0 {
        let q = s / k;
        vstd::arithmetic::div_mod::lemma_fundamental_div_mod(s, k);
        assert(0 <= s % k < k);
        assert(lo <= q <= hi) by (nonlinear_arith)
            requires
                s == k * q + s % k,
                0 <= s % k < k,
                k * lo <= s <= k * hi,
                k > 0,
                s >= 0,
        ;
    } else {
        let t = -s;
        let q = t / k;
        vstd::arithmetic::div_mod::lemma_fundamental_div_mod(t, k);
        assert(0 <= t % k < k);
        assert(lo <= -q <= hi) by (nonlinear_arith)
            requires
                t == k * q + t % k,
                0 <= t % k < k,
                k * lo <= -t <= k * hi,
                k > 0,
                t > 0,
        ;
    }
}

/// Calibrating on samples that all lie within bounds gives offsets within
/// the same bounds, axis by axis: when the drone stands still, the offsets
/// are the typical readings.
pub proof fn lemma_offsets_within_sample_bounds(st: CalibrationState, lo: Axis, hi: Axis, gyro_lo: Axis, gyro_hi: Axis)
    requires
        0 < st.sample_count() <= i32::MAX,
        st.sample_count() * lo.x <= st.accel_sums().0 <= st.sample_count() * hi.x,
        st.sample_count() * lo.y <= st.accel_sums().1 <= st.sample_count() * hi.y,
        st.sample_count() * lo.z <= st.accel_sums().2 <= st.sample_count() * hi.z,
        st.sample_count() * gyro_lo.x <= st.gyro_sums().0 <= st.sample_count() * gyro_hi.x,
        st.sample_count() * gyro_lo.y <= st.gyro_sums().1 <= st.sample_count() * gyro_hi.y,
        st.sample_count() * gyro_lo.z <= st.gyro_sums().2 <= st.sample_count() * gyro_hi.z,
    ensures
        lo.x <= st.average(st.accel_sums().0) <= hi.x,
        lo.y <= st.average(st.accel_sums().1) <= hi.y,
        lo.z <= st.average(st.accel_sums().2) <= hi.z,
        gyro_lo.x <= st.average(st.gyro_sums().0) <= gyro_hi.x,
        gyro_lo.y <= st.average(st.gyro_sums().1) <= gyro_hi.y,
        gyro_lo.z <= st.average(st.gyro_sums().2) <= gyro_hi.z,
{
    let k = st.sample_count() as int;
    lemma_trunc_div_within(st.accel_sums().0, k, lo.x as int, hi.x as int);
    lemma_trunc_div_within(st.accel_sums().1, k, lo.y as int, hi.y as int);
    lemma_trunc_div_within(st.accel_sums().2, k, lo.z as int, hi.z as int);
    lemma_trunc_div_within(st.gyro_sums().0, k, gyro_lo.x as int, gyro_hi.x as int);
    lemma_trunc_div_within(st.gyro_sums().1, k, gyro_lo.y as int, gyro_hi.y as int);
    lemma_trunc_div_within(st.gyro_sums().2, k, gyro_lo.z as int, gyro_hi.z as int);
}

/// Calibrating on `k` copies of the same readings makes those readings
/// come out as zero.
pub proof fn lemma_constant_samples_correct_to_zero(st: CalibrationState, accel: Axis, gyro: Axis)
    requires
        0 < st.sample_count() <= i32::MAX,
        st.accel_sums() == (
            st.sample_count() * accel.x,
            st.sample_count() * accel.y,
            st.sample_count() * accel.z,
        ),
        st.gyro_sums() == (
            st.sample_count() * gyro.x,
            st.sample_count() * gyro.y,
            st.sample_count() * gyro.z,
        ),
    ensures
        ({
            let accel_offset = Axis {
                x: st.average(st.accel_sums().0),
                y: st.average(st.accel_sums().1),
                z: st.average(st.accel_sums().2),
            };
            let gyro_offset = Axis {
                x: st.average(st.gyro_sums().0),
                y: st.average(st.gyro_sums().1),
                z: st.average(st.gyro_sums().2),
            };
            &&& accel_offset == accel
            &&& gyro_offset == gyro
            &&& corrected(accel, accel_offset) == zero_axis()
            &&& corrected(gyro, gyro_offset) == zero_axis()
        }),
{
    let k = st.sample_count() as int;
    lemma_trunc_div_of_multiple(accel.x as int, k);
    lemma_trunc_div_of_multiple(accel.y as int, k);
    lemma_trunc_div_of_multiple(accel.z as int, k);
    lemma_trunc_div_of_multiple(gyro.x as int, k);
    lemma_trunc_div_of_multiple(gyro.y as int, k);
    lemma_trunc_div_of_multiple(gyro.z as int, k);
}

} // verus!
