//! The height filter: a two-state Kalman filter (height, vertical speed)
//! in `I20F12`, predicted from the vertical acceleration and corrected by
//! the barometer. The matrices are held entry by entry; the sines and
//! cosines of the attitude and the time step come in as `I20F12` numbers.
//!
//! Every step can leave the range of `I20F12`. The contracts describe a
//! step as a chain of operations on optional values, `None` once one of
//! them would overflow (or divide by zero); a step is taken only where the
//! chain gives a value, and then gives exactly that value.
use vstd::prelude::*;

use crate::axis::Axis;
use crate::calibration_state::Axis as SensorAxis;
use crate::fixed_point::{div_toward_zero, fits_i32, fits_i64, I16F16, I20F12};

verus! {

/// One, as `I20F12` bits.
pub const ONE_BITS: i32 = 4096;

/// Gravity, 9.81, as `I20F12` bits (rounded to the nearest).
pub const GRAVITY_BITS: i32 = 40182;

/// The accelerometer's reading for one g.
pub const LSB_FOR_ACCEL: i32 = 16384;

/// The barometer's pressure drop per metre (in pascal).
pub const PASCAL_PER_METRE: i32 = 12;

/// The sea-level pressure the height starts from (pascal).
pub const STANDARD_PRESSURE: i32 = 101325;

/// The accelerometer's variance, 0.6, as `I20F12` bits.
pub const ACCELEROMETER_VARIANCE_BITS: i32 = 2458;

/// The barometer's variance, 0.05, as `I20F12` bits.
pub const BAROMETER_VARIANCE_BITS: i32 = 205;

/// The sines and cosines of the current pitch and roll.
#[derive(PartialEq, Eq, Structural, Debug, Clone, Copy)]
pub struct AttitudeTrig {
    pub sin_pitch: I20F12,
    pub sin_roll: I20F12,
    pub cos_pitch: I20F12,
    pub cos_roll: I20F12,
}

/// The filter: the state (height, vertical speed), the observation row,
/// the uncertainty matrix (row by row), the two variances, the pressure
/// at height zero, and when the accelerometer and the barometer were last
/// taken in (microseconds).
pub struct PressureSensor {
    pub current_state: (I20F12, I20F12),
    pub observation_matrix: (I20F12, I20F12),
    pub uncertainty_matrix: (I20F12, I20F12, I20F12, I20F12),
    pub barometer_variance: I20F12,
    pub accelerometer_variance: I20F12,
    pub baseline_pressure: i32,
    pub last_reading_accel_us: u64,
    pub last_reading_baro_us: u64,
}

/// The accelerometer is sampled at most once per this many microseconds.
pub const ACCEL_SAMPLE_PERIOD_US: u64 = 1000;

/// The barometer is sampled at most once per this many microseconds.
pub const BARO_SAMPLE_PERIOD_US: u64 = 10000;

/// The microseconds from `last` to `now`, zero when `now` is earlier.
pub open spec fn elapsed_us(now: u64, last: u64) -> int {
    if now >= last {
        now - last
    } else {
        0
    }
}

/// An `I20F12` sum, `None` where an argument is missing or it overflows.
pub open spec fn add_o(a: Option<int>, b: Option<int>) -> Option<int> {
    match (a, b) {
        (Some(x), Some(y)) => if fits_i32(x + y) {
            Some(x + y)
        } else {
            None
        },
        _ => None,
    }
}

/// An `I20F12` difference.
pub open spec fn sub_o(a: Option<int>, b: Option<int>) -> Option<int> {
    match (a, b) {
        (Some(x), Some(y)) => if fits_i32(x - y) {
            Some(x - y)
        } else {
            None
        },
        _ => None,
    }
}

/// An `I20F12` negation.
pub open spec fn neg_o(a: Option<int>) -> Option<int> {
    match a {
        Some(x) => if fits_i32(-x) {
            Some(-x)
        } else {
            None
        },
        None => None,
    }
}

/// An `I20F12` product, rounded towards minus infinity.
pub open spec fn mul_o(a: Option<int>, b: Option<int>) -> Option<int> {
    match (a, b) {
        (Some(x), Some(y)) => if fits_i64(x * y * 0x10_0000) {
            Some((x * y) / 4096)
        } else {
            None
        },
        _ => None,
    }
}

/// An `I20F12` quotient, rounded towards zero.
pub open spec fn div_o(a: Option<int>, b: Option<int>) -> Option<int> {
    match (a, b) {
        (Some(x), Some(y)) => if y != 0 && fits_i32(div_toward_zero(x * 4096, y)) {
            Some(div_toward_zero(x * 4096, y))
        } else {
            None
        },
        _ => None,
    }
}

/// Bits as an optional value.
pub open spec fn some_bits(v: I20F12) -> Option<int> {
    Some(v.bits as int)
}

/// The acceleration along one axis in g, as `I20F12` bits: the raw value
/// minus its offset in `I16F16`, over one g, with four fractional bits
/// dropped.
pub open spec fn accel_in_g(raw: i16, offset: I16F16) -> Option<int> {
    let d = raw * 0x10000 - offset.bits;
    if fits_i32(d) {
        Some(div_toward_zero(d * 0x10000, 0x4000_0000) / 16)
    } else {
        None
    }
}

/// The vertical acceleration (m/s^2, gravity removed) for a raw
/// accelerometer reading at this attitude.
pub open spec fn vertical_acceleration(accel: SensorAxis, offset: Axis<I16F16>, trig: AttitudeTrig) -> Option<int> {
    let ax = accel_in_g(accel.x, offset.x);
    let ay = accel_in_g(accel.y, offset.y);
    let az = accel_in_g(accel.z, offset.z);
    let t1 = mul_o(neg_o(ax), some_bits(trig.sin_pitch));
    let t2 = mul_o(mul_o(ay, some_bits(trig.sin_roll)), some_bits(trig.cos_pitch));
    let t3 = mul_o(mul_o(az, some_bits(trig.cos_roll)), some_bits(trig.cos_pitch));
    mul_o(sub_o(add_o(add_o(t1, t2), t3), Some(ONE_BITS as int)), Some(GRAVITY_BITS as int))
}

/// All six values, where each is there.
pub open spec fn all_six(
    a: Option<int>,
    b: Option<int>,
    c: Option<int>,
    d: Option<int>,
    e: Option<int>,
    f: Option<int>,
) -> Option<(int, int, int, int, int, int)> {
    match (a, b, c, d, e, f) {
        (Some(a), Some(b), Some(c), Some(d), Some(e), Some(f)) => Some((a, b, c, d, e, f)),
        _ => None,
    }
}

/// A 2x2 matrix of optional `I20F12` values, row by row.
pub type Mat2 = (Option<int>, Option<int>, Option<int>, Option<int>);

/// A column of two optional `I20F12` values.
pub type Vec2 = (Option<int>, Option<int>);

/// The matrix product `a b`, each entry rounded as `I20F12` computes it.
pub open spec fn mat_mul(a: Mat2, b: Mat2) -> Mat2 {
    (
        add_o(mul_o(a.0, b.0), mul_o(a.1, b.2)),
        add_o(mul_o(a.0, b.1), mul_o(a.1, b.3)),
        add_o(mul_o(a.2, b.0), mul_o(a.3, b.2)),
        add_o(mul_o(a.2, b.1), mul_o(a.3, b.3)),
    )
}

/// The transpose of a matrix.
pub open spec fn transpose(a: Mat2) -> Mat2 {
    (a.0, a.2, a.1, a.3)
}

/// The entrywise sum of two matrices.
pub open spec fn mat_add(a: Mat2, b: Mat2) -> Mat2 {
    (add_o(a.0, b.0), add_o(a.1, b.1), add_o(a.2, b.2), add_o(a.3, b.3))
}

/// Each entry of a matrix times a scalar.
pub open spec fn mat_scale(a: Mat2, c: Option<int>) -> Mat2 {
    (mul_o(a.0, c), mul_o(a.1, c), mul_o(a.2, c), mul_o(a.3, c))
}

/// The product of a matrix and a column.
pub open spec fn mat_vec(a: Mat2, v: Vec2) -> Vec2 {
    (add_o(mul_o(a.0, v.0), mul_o(a.1, v.1)), add_o(mul_o(a.2, v.0), mul_o(a.3, v.1)))
}

/// The sum of two columns.
pub open spec fn vec_add(a: Vec2, b: Vec2) -> Vec2 {
    (add_o(a.0, b.0), add_o(a.1, b.1))
}

/// Each entry of a column times a scalar.
pub open spec fn vec_scale(a: Vec2, c: Option<int>) -> Vec2 {
    (mul_o(a.0, c), mul_o(a.1, c))
}

/// The outer product `a a^T` of a column with itself.
pub open spec fn outer(a: Vec2) -> Mat2 {
    (mul_o(a.0, a.0), mul_o(a.0, a.1), mul_o(a.1, a.0), mul_o(a.1, a.1))
}

/// A state and an uncertainty, where every entry is there.
pub open spec fn state_and_uncertainty(x: Vec2, p: Mat2) -> Option<(int, int, int, int, int, int)> {
    all_six(x.0, x.1, p.0, p.1, p.2, p.3)
}

/// The filter's state as a column.
pub open spec fn state_column(s: PressureSensor) -> Vec2 {
    (some_bits(s.current_state.0), some_bits(s.current_state.1))
}

/// The filter's uncertainty as a matrix.
pub open spec fn uncertainty(s: PressureSensor) -> Mat2 {
    (
        some_bits(s.uncertainty_matrix.0),
        some_bits(s.uncertainty_matrix.1),
        some_bits(s.uncertainty_matrix.2),
        some_bits(s.uncertainty_matrix.3),
    )
}

/// The transition over a time step `d`: `F = [[1, d], [0, 1]]`.
pub open spec fn transition(d: Option<int>) -> Mat2 {
    (Some(ONE_BITS as int), d, Some(0int), Some(ONE_BITS as int))
}

/// The prediction step: `x' = F x + B u` with the control column
/// `B = [d^2 / 2, d]` and `u` the vertical acceleration, and
/// `P' = F P F^T + Q` with the process noise `Q` the accelerometer's
/// variance times `[[d^4 / 4, d^3 / 2], [d^3 / 2, d^2]]`; every product
/// rounded as `I20F12` computes it.
pub open spec fn predicted(
    s: PressureSensor,
    accel: SensorAxis,
    offset: Axis<I16F16>,
    trig: AttitudeTrig,
    dt: I20F12,
) -> Option<(int, int, int, int, int, int)> {
    let u = vertical_acceleration(accel, offset, trig);
    let d = some_bits(dt);
    let f = transition(d);
    let dd = mul_o(d, d);
    let ddd = mul_o(dd, d);
    let dddd = mul_o(ddd, d);
    let control = (mul_o(dd, Some(2048)), d);
    let half_ddd = mul_o(ddd, Some(2048));
    let noise = mat_scale((mul_o(dddd, Some(1024)), half_ddd, half_ddd, dd), some_bits(s.accelerometer_variance));
    state_and_uncertainty(
        vec_add(mat_vec(f, state_column(s)), vec_scale(control, u)),
        mat_add(mat_mul(mat_mul(f, uncertainty(s)), transpose(f)), noise),
    )
}

/// The height (metres, `I20F12`) that a pressure reading stands for: the
/// drop from the baseline pressure over `PASCAL_PER_METRE`.
pub open spec fn height_of(baseline: int, pressure: int) -> Option<int> {
    let v = -pressure + baseline;
    if pressure != i32::MIN && fits_i32(v) && fits_i32(v * 4096) {
        div_o(Some(v * 4096), Some(PASCAL_PER_METRE * 4096))
    } else {
        None
    }
}

/// The correction step for a pressure reading `z`: the gain
/// `K = P H^T / (P00 + R)`, the state `x + K (z - x0)`, the uncertainty
/// `(I - K H) P (I - K H)^T + K R K^T`, where `I - K H` is taken for the
/// height being measured, `H = [1, 0]`; every product rounded as `I20F12`
/// computes it.
pub open spec fn corrected(s: PressureSensor, pressure: int) -> Option<(int, int, int, int, int, int)> {
    let z = height_of(s.baseline_pressure as int, pressure);
    let p = uncertainty(s);
    let x = state_column(s);
    let h = (some_bits(s.observation_matrix.0), some_bits(s.observation_matrix.1));
    let r = some_bits(s.barometer_variance);
    let variance = add_o(p.0, r);
    let ph = mat_vec(p, h);
    let k = (div_o(ph.0, variance), div_o(ph.1, variance));
    let a = (sub_o(Some(ONE_BITS as int), k.0), Some(0int), neg_o(k.1), Some(ONE_BITS as int));
    state_and_uncertainty(
        vec_add(x, vec_scale(k, sub_o(z, x.0))),
        mat_add(mat_mul(mat_mul(a, p), transpose(a)), mat_scale(outer(k), r)),
    )
}

/// The state and uncertainty of a filter as bits.
pub open spec fn state_of(s: PressureSensor) -> (int, int, int, int, int, int) {
    (
        s.current_state.0.bits as int,
        s.current_state.1.bits as int,
        s.uncertainty_matrix.0.bits as int,
        s.uncertainty_matrix.1.bits as int,
        s.uncertainty_matrix.2.bits as int,
        s.uncertainty_matrix.3.bits as int,
    )
}

/// A matrix of `I20F12` values as optional bits.
pub open spec fn mat_of(m: (I20F12, I20F12, I20F12, I20F12)) -> Mat2 {
    (some_bits(m.0), some_bits(m.1), some_bits(m.2), some_bits(m.3))
}

/// A column of `I20F12` values as optional bits.
pub open spec fn vec_of(v: (I20F12, I20F12)) -> Vec2 {
    (some_bits(v.0), some_bits(v.1))
}

/// Every entry of the matrix is there.
pub open spec fn whole_mat(m: Mat2) -> bool {
    m.0 is Some && m.1 is Some && m.2 is Some && m.3 is Some
}

/// Both entries of the column are there.
pub open spec fn whole_vec(v: Vec2) -> bool {
    v.0 is Some && v.1 is Some
}

/// The matrix product in `I20F12`.
fn matrix_mul(a: (I20F12, I20F12, I20F12, I20F12), b: (I20F12, I20F12, I20F12, I20F12)) -> (r: (
    I20F12,
    I20F12,
    I20F12,
    I20F12,
))
    requires
        whole_mat(mat_mul(mat_of(a), mat_of(b))),
    ensures
        mat_of(r) == mat_mul(mat_of(a), mat_of(b)),
{
    (
        a.0.mul(b.0).add(a.1.mul(b.2)),
        a.0.mul(b.1).add(a.1.mul(b.3)),
        a.2.mul(b.0).add(a.3.mul(b.2)),
        a.2.mul(b.1).add(a.3.mul(b.3)),
    )
}

/// The transpose of a matrix.
fn matrix_transpose(a: (I20F12, I20F12, I20F12, I20F12)) -> (r: (I20F12, I20F12, I20F12, I20F12))
    ensures
        mat_of(r) == transpose(mat_of(a)),
{
    (a.0, a.2, a.1, a.3)
}

/// The entrywise sum of two matrices in `I20F12`.
fn matrix_add(a: (I20F12, I20F12, I20F12, I20F12), b: (I20F12, I20F12, I20F12, I20F12)) -> (r: (
    I20F12,
    I20F12,
    I20F12,
    I20F12,
))
    requires
        whole_mat(mat_add(mat_of(a), mat_of(b))),
    ensures
        mat_of(r) == mat_add(mat_of(a), mat_of(b)),
{
    (a.0.add(b.0), a.1.add(b.1), a.2.add(b.2), a.3.add(b.3))
}

/// Each entry of a matrix times a scalar in `I20F12`.
fn matrix_scale(a: (I20F12, I20F12, I20F12, I20F12), c: I20F12) -> (r: (I20F12, I20F12, I20F12, I20F12))
    requires
        whole_mat(mat_scale(mat_of(a), some_bits(c))),
    ensures
        mat_of(r) == mat_scale(mat_of(a), some_bits(c)),
{
    (a.0.mul(c), a.1.mul(c), a.2.mul(c), a.3.mul(c))
}

/// The product of a matrix and a column in `I20F12`.
fn matrix_vec(a: (I20F12, I20F12, I20F12, I20F12), v: (I20F12, I20F12)) -> (r: (I20F12, I20F12))
    requires
        whole_vec(mat_vec(mat_of(a), vec_of(v))),
    ensures
        vec_of(r) == mat_vec(mat_of(a), vec_of(v)),
{
    (a.0.mul(v.0).add(a.1.mul(v.1)), a.2.mul(v.0).add(a.3.mul(v.1)))
}

/// The sum of two columns in `I20F12`.
fn vector_add(a: (I20F12, I20F12), b: (I20F12, I20F12)) -> (r: (I20F12, I20F12))
    requires
        whole_vec(vec_add(vec_of(a), vec_of(b))),
    ensures
        vec_of(r) == vec_add(vec_of(a), vec_of(b)),
{
    (a.0.add(b.0), a.1.add(b.1))
}

/// Each entry of a column times a scalar in `I20F12`.
fn vector_scale(a: (I20F12, I20F12), c: I20F12) -> (r: (I20F12, I20F12))
    requires
        whole_vec(vec_scale(vec_of(a), some_bits(c))),
    ensures
        vec_of(r) == vec_scale(vec_of(a), some_bits(c)),
{
    (a.0.mul(c), a.1.mul(c))
}

/// The outer product of a column with itself in `I20F12`.
fn vector_outer(a: (I20F12, I20F12)) -> (r: (I20F12, I20F12, I20F12, I20F12))
    requires
        whole_mat(outer(vec_of(a))),
    ensures
        mat_of(r) == outer(vec_of(a)),
{
    (a.0.mul(a.0), a.0.mul(a.1), a.1.mul(a.0), a.1.mul(a.1))
}

/// The acceleration along one axis in g.
fn accel_g(raw: i16, offset: I16F16) -> (r: I20F12)
    requires
        accel_in_g(raw, offset) is Some,
    ensures
        r.bits == accel_in_g(raw, offset)->0,
{
    let lsb = I16F16::from_i32(LSB_FOR_ACCEL);
    let d = I16F16::from_i32(raw as i32).sub(offset);
    proof {
        let v = d.bits as int;
        if v >= 0 {
            vstd::arithmetic::div_mod::lemma_div_is_ordered(v * 0x10000, 0x8000_0000int * 0x10000, 0x4000_0000);
            vstd::arithmetic::div_mod::lemma_div_pos_is_pos(v * 0x10000, 0x4000_0000);
        } else {
            vstd::arithmetic::div_mod::lemma_div_is_ordered(-v * 0x10000, 0x8000_0000int * 0x10000, 0x4000_0000);
            vstd::arithmetic::div_mod::lemma_div_pos_is_pos(-v * 0x10000, 0x4000_0000);
        }
    }
    I20F12::from_i16f16(d.div(lsb))
}

impl PressureSensor {
    /// At height zero and at rest, the uncertainty the identity, the
    /// standard pressure as the baseline.
    pub fn new(now_us: u64) -> (r: Self)
        ensures
            state_of(r) == (0int, 0int, ONE_BITS as int, 0int, 0int, ONE_BITS as int),
            r.last_reading_accel_us == now_us,
            r.last_reading_baro_us == now_us,
            r.observation_matrix == (I20F12 { bits: ONE_BITS }, I20F12 { bits: 0 }),
            r.accelerometer_variance.bits == ACCELEROMETER_VARIANCE_BITS,
            r.barometer_variance.bits == BAROMETER_VARIANCE_BITS,
            r.baseline_pressure == STANDARD_PRESSURE,
    {
        let zero = I20F12::from_bits(0);
        let one = I20F12::from_bits(ONE_BITS);
        PressureSensor {
            current_state: (zero, zero),
            observation_matrix: (one, zero),
            uncertainty_matrix: (one, zero, zero, one),
            barometer_variance: I20F12::from_bits(BAROMETER_VARIANCE_BITS),
            accelerometer_variance: I20F12::from_bits(ACCELEROMETER_VARIANCE_BITS),
            baseline_pressure: STANDARD_PRESSURE,
            last_reading_accel_us: now_us,
            last_reading_baro_us: now_us,
        }
    }

    /// Starts over at the current pressure: height zero and at rest, the
    /// uncertainty the identity. A pressure above `i32::MAX` does not fit
    /// the baseline.
    pub fn reset(&mut self, pressure: u32)
        requires
            pressure <= i32::MAX,
        ensures
            state_of(*final(self)) == (0int, 0int, ONE_BITS as int, 0int, 0int, ONE_BITS as int),
            final(self).baseline_pressure == pressure,
            final(self).observation_matrix == old(self).observation_matrix,
            final(self).accelerometer_variance == old(self).accelerometer_variance,
            final(self).barometer_variance == old(self).barometer_variance,
            final(self).last_reading_accel_us == old(self).last_reading_accel_us,
            final(self).last_reading_baro_us == old(self).last_reading_baro_us,
    {
        let zero = I20F12::from_bits(0);
        let one = I20F12::from_bits(ONE_BITS);
        self.baseline_pressure = pressure as i32;
        self.current_state = (zero, zero);
        self.uncertainty_matrix = (one, zero, zero, one);
    }

    /// The height (metres) that a pressure reading stands for.
    pub fn pressure_to_meters(&self, pressure_reading: i32) -> (r: I20F12)
        requires
            height_of(self.baseline_pressure as int, pressure_reading as int) is Some,
        ensures
            r.bits == height_of(self.baseline_pressure as int, pressure_reading as int)->0,
    {
        let metres = I20F12::from_i32(-pressure_reading + self.baseline_pressure);
        metres.div(I20F12::from_i32(PASCAL_PER_METRE))
    }

    /// The prediction step itself.
    fn predict(&mut self, accel: SensorAxis, offset: Axis<I16F16>, trig: AttitudeTrig, dt: I20F12)
        requires
            predicted(*old(self), accel, offset, trig, dt) is Some,
        ensures
            state_of(*final(self)) == predicted(*old(self), accel, offset, trig, dt)->0,
            final(self).observation_matrix == old(self).observation_matrix,
            final(self).accelerometer_variance == old(self).accelerometer_variance,
            final(self).barometer_variance == old(self).barometer_variance,
            final(self).baseline_pressure == old(self).baseline_pressure,
            final(self).last_reading_accel_us == old(self).last_reading_accel_us,
            final(self).last_reading_baro_us == old(self).last_reading_baro_us,
    {
        let one = I20F12::from_bits(ONE_BITS);
        let zero = I20F12::from_bits(0);
        let ax = accel_g(accel.x, offset.x);
        let ay = accel_g(accel.y, offset.y);
        let az = accel_g(accel.z, offset.z);
        let tilted = ax.neg().mul(trig.sin_pitch).add(ay.mul(trig.sin_roll).mul(trig.cos_pitch)).add(
            az.mul(trig.cos_roll).mul(trig.cos_pitch),
        );
        let accel_input = tilted.sub(one).mul(I20F12::from_bits(GRAVITY_BITS));
        let half = I20F12::from_bits(2048);
        let quarter = I20F12::from_bits(1024);
        let f = (one, dt, zero, one);
        let dd = dt.mul(dt);
        let ddd = dd.mul(dt);
        let dddd = ddd.mul(dt);
        let control = (dd.mul(half), dt);
        let half_ddd = ddd.mul(half);
        let noise_shape = (dddd.mul(quarter), half_ddd, half_ddd, dd);
        let state = vector_add(matrix_vec(f, self.current_state), vector_scale(control, accel_input));
        let spread = matrix_mul(matrix_mul(f, self.uncertainty_matrix), matrix_transpose(f));
        let uncertainty = matrix_add(spread, matrix_scale(noise_shape, self.accelerometer_variance));
        self.current_state = state;
        self.uncertainty_matrix = uncertainty;
    }

    /// The correction step itself.
    fn correct(&mut self, pressure: i32)
        requires
            corrected(*old(self), pressure as int) is Some,
        ensures
            state_of(*final(self)) == corrected(*old(self), pressure as int)->0,
            final(self).observation_matrix == old(self).observation_matrix,
            final(self).accelerometer_variance == old(self).accelerometer_variance,
            final(self).barometer_variance == old(self).barometer_variance,
            final(self).baseline_pressure == old(self).baseline_pressure,
            final(self).last_reading_accel_us == old(self).last_reading_accel_us,
            final(self).last_reading_baro_us == old(self).last_reading_baro_us,
    {
        let one = I20F12::from_bits(ONE_BITS);
        let zero = I20F12::from_bits(0);
        let baro_reading = self.pressure_to_meters(pressure);
        let x = self.current_state;
        let p = self.uncertainty_matrix;
        let r = self.barometer_variance;
        let variance = p.0.add(r);
        let ph = matrix_vec(p, self.observation_matrix);
        let gain = (ph.0.div(variance), ph.1.div(variance));
        let innovation = baro_reading.sub(x.0);
        let a = (one.sub(gain.0), zero, gain.1.neg(), one);
        let state = vector_add(x, vector_scale(gain, innovation));
        let spread = matrix_mul(matrix_mul(a, p), matrix_transpose(a));
        let uncertainty = matrix_add(spread, matrix_scale(vector_outer(gain), r));
        self.current_state = state;
        self.uncertainty_matrix = uncertainty;
    }

    /// The prediction step for a raw accelerometer reading (with the
    /// attitude filter's offsets), the attitude's sines and cosines and the
    /// time step, at time `now_us`. Within `ACCEL_SAMPLE_PERIOD_US` of the
    /// last prediction nothing happens; otherwise the state and the
    /// uncertainty are predicted and the time is kept.
    pub fn prediction(&mut self, now_us: u64, accel: SensorAxis, offset: Axis<I16F16>, trig: AttitudeTrig, dt: I20F12)
        requires
            elapsed_us(now_us, old(self).last_reading_accel_us) >= ACCEL_SAMPLE_PERIOD_US ==> predicted(
                *old(self),
                accel,
                offset,
                trig,
                dt,
            ) is Some,
        ensures
            elapsed_us(now_us, old(self).last_reading_accel_us) < ACCEL_SAMPLE_PERIOD_US ==> *final(self)
                == *old(self),
            elapsed_us(now_us, old(self).last_reading_accel_us) >= ACCEL_SAMPLE_PERIOD_US ==> {
                &&& state_of(*final(self)) == predicted(*old(self), accel, offset, trig, dt)->0
                &&& final(self).last_reading_accel_us == now_us
                &&& final(self).last_reading_baro_us == old(self).last_reading_baro_us
                &&& final(self).observation_matrix == old(self).observation_matrix
                &&& final(self).accelerometer_variance == old(self).accelerometer_variance
                &&& final(self).barometer_variance == old(self).barometer_variance
                &&& final(self).baseline_pressure == old(self).baseline_pressure
            },
    {
        let elapsed: u64 = if now_us >= self.last_reading_accel_us {
            now_us - self.last_reading_accel_us
        } else {
            0
        };
        if elapsed < ACCEL_SAMPLE_PERIOD_US {
            return;
        }
        self.predict(accel, offset, trig, dt);
        self.last_reading_accel_us = now_us;
    }

    /// The correction step for a barometer reading (pascal) at time
    /// `now_us`. Within `BARO_SAMPLE_PERIOD_US` of the last correction
    /// nothing happens; otherwise the state and the uncertainty are
    /// corrected and the time is kept.
    pub fn correction(&mut self, now_us: u64, pressure: i32)
        requires
            elapsed_us(now_us, old(self).last_reading_baro_us) >= BARO_SAMPLE_PERIOD_US ==> corrected(
                *old(self),
                pressure as int,
            ) is Some,
        ensures
            elapsed_us(now_us, old(self).last_reading_baro_us) < BARO_SAMPLE_PERIOD_US ==> *final(self)
                == *old(self),
            elapsed_us(now_us, old(self).last_reading_baro_us) >= BARO_SAMPLE_PERIOD_US ==> {
                &&& state_of(*final(self)) == corrected(*old(self), pressure as int)->0
                &&& final(self).last_reading_baro_us == now_us
                &&& final(self).last_reading_accel_us == old(self).last_reading_accel_us
                &&& final(self).observation_matrix == old(self).observation_matrix
                &&& final(self).accelerometer_variance == old(self).accelerometer_variance
                &&& final(self).barometer_variance == old(self).barometer_variance
                &&& final(self).baseline_pressure == old(self).baseline_pressure
            },
    {
        let elapsed: u64 = if now_us >= self.last_reading_baro_us {
            now_us - self.last_reading_baro_us
        } else {
            0
        };
        if elapsed < BARO_SAMPLE_PERIOD_US {
            return;
        }
        self.correct(pressure);
        self.last_reading_baro_us = now_us;
    }

    /// The estimated height (metres).
    pub fn get_reading(&self) -> (r: I20F12)
        ensures
            r == self.current_state.0,
    {
        self.current_state.0
    }
}

/// The vertical acceleration is the measured acceleration projected on the
/// vertical, `-ax sin(pitch) + ay sin(roll) cos(pitch) + az cos(roll)
/// cos(pitch)`, less one g, times g: with the drone pitched nose up
/// (`sin(pitch) >= 0`), more acceleration along x means less vertical
/// acceleration, the y and z readings being the same. (With the x term
/// taken positively a drone tilted at rest would seem to fall.)
pub proof fn lemma_vertical_acceleration_falls_with_x(
    a1: SensorAxis,
    a2: SensorAxis,
    offset: Axis<I16F16>,
    trig: AttitudeTrig,
)
    requires
        a1.y == a2.y,
        a1.z == a2.z,
        trig.sin_pitch.bits >= 0,
        accel_in_g(a1.x, offset.x) is Some,
        accel_in_g(a2.x, offset.x) is Some,
        accel_in_g(a1.x, offset.x)->0 >= accel_in_g(a2.x, offset.x)->0,
        vertical_acceleration(a1, offset, trig) is Some,
        vertical_acceleration(a2, offset, trig) is Some,
    ensures
        vertical_acceleration(a1, offset, trig)->0 <= vertical_acceleration(a2, offset, trig)->0,
{
    let x1 = accel_in_g(a1.x, offset.x)->0;
    let x2 = accel_in_g(a2.x, offset.x)->0;
    let sp = trig.sin_pitch.bits as int;
    let ay = accel_in_g(a1.y, offset.y);
    let az = accel_in_g(a1.z, offset.z);
    let t2 = mul_o(mul_o(ay, some_bits(trig.sin_roll)), some_bits(trig.cos_pitch));
    let t3 = mul_o(mul_o(az, some_bits(trig.cos_roll)), some_bits(trig.cos_pitch));
    let t1a = mul_o(neg_o(Some(x1)), Some(sp));
    let t1b = mul_o(neg_o(Some(x2)), Some(sp));
    let sa = sub_o(add_o(add_o(t1a, t2), t3), Some(ONE_BITS as int));
    let sb = sub_o(add_o(add_o(t1b, t2), t3), Some(ONE_BITS as int));
    assert(vertical_acceleration(a1, offset, trig) == mul_o(sa, Some(GRAVITY_BITS as int)));
    assert(vertical_acceleration(a2, offset, trig) == mul_o(sb, Some(GRAVITY_BITS as int)));
    assert(sa is Some && sb is Some && t1a is Some && t1b is Some && t2 is Some && t3 is Some);
    assert((-x1) * sp <= (-x2) * sp) by (nonlinear_arith)
        requires
            x1 >= x2,
            sp >= 0,
    ;
    vstd::arithmetic::div_mod::lemma_div_is_ordered((-x1) * sp, (-x2) * sp, 4096);
    assert(t1a->0 <= t1b->0);
    assert(sa->0 <= sb->0);
    assert(sa->0 * GRAVITY_BITS <= sb->0 * GRAVITY_BITS) by (nonlinear_arith)
        requires
            sa->0 <= sb->0,
    ;
    vstd::arithmetic::div_mod::lemma_div_is_ordered(sa->0 * GRAVITY_BITS, sb->0 * GRAVITY_BITS, 4096);
}

/// A product by a factor of at least zero keeps the order.
proof fn lemma_mul_o_keeps_order(a: Option<int>, b: Option<int>, c: Option<int>)
    requires
        mul_o(a, c) is Some,
        mul_o(b, c) is Some,
        a->0 <= b->0,
        c->0 >= 0,
    ensures
        mul_o(a, c)->0 <= mul_o(b, c)->0,
{
    let (x, y, k) = (a->0, b->0, c->0);
    assert(x * k <= y * k) by (nonlinear_arith)
        requires
            x <= y,
            k >= 0,
    ;
    vstd::arithmetic::div_mod::lemma_div_is_ordered(x * k, y * k, 4096);
}

/// With the drone upright (the cosines of pitch and roll at least zero),
/// more acceleration along z means more vertical acceleration; with
/// `sin(roll) cos(pitch)` at least zero, more acceleration along y means
/// more too, the other readings being the same.
pub proof fn lemma_vertical_acceleration_rises_with_y_and_z(
    a1: SensorAxis,
    a2: SensorAxis,
    offset: Axis<I16F16>,
    trig: AttitudeTrig,
)
    requires
        a1.x == a2.x,
        trig.cos_pitch.bits >= 0,
        (a1.y == a2.y && trig.cos_roll.bits >= 0 && accel_in_g(a1.z, offset.z) is Some
            && accel_in_g(a2.z, offset.z) is Some && accel_in_g(a1.z, offset.z)->0 <= accel_in_g(
            a2.z,
            offset.z,
        )->0) || (a1.z == a2.z && trig.sin_roll.bits >= 0 && accel_in_g(a1.y, offset.y) is Some
            && accel_in_g(a2.y, offset.y) is Some && accel_in_g(a1.y, offset.y)->0 <= accel_in_g(
            a2.y,
            offset.y,
        )->0),
        vertical_acceleration(a1, offset, trig) is Some,
        vertical_acceleration(a2, offset, trig) is Some,
    ensures
        vertical_acceleration(a1, offset, trig)->0 <= vertical_acceleration(a2, offset, trig)->0,
{
    let ax = accel_in_g(a1.x, offset.x);
    let x_term = mul_o(neg_o(ax), some_bits(trig.sin_pitch));
    let sr = some_bits(trig.sin_roll);
    let cr = some_bits(trig.cos_roll);
    let cp = some_bits(trig.cos_pitch);
    let y1 = accel_in_g(a1.y, offset.y);
    let y2 = accel_in_g(a2.y, offset.y);
    let z1 = accel_in_g(a1.z, offset.z);
    let z2 = accel_in_g(a2.z, offset.z);
    let t2a = mul_o(mul_o(y1, sr), cp);
    let t2b = mul_o(mul_o(y2, sr), cp);
    let t3a = mul_o(mul_o(z1, cr), cp);
    let t3b = mul_o(mul_o(z2, cr), cp);
    let sa = sub_o(add_o(add_o(x_term, t2a), t3a), Some(ONE_BITS as int));
    let sb = sub_o(add_o(add_o(x_term, t2b), t3b), Some(ONE_BITS as int));
    assert(vertical_acceleration(a1, offset, trig) == mul_o(sa, Some(GRAVITY_BITS as int)));
    assert(vertical_acceleration(a2, offset, trig) == mul_o(sb, Some(GRAVITY_BITS as int)));
    assert(sa is Some && sb is Some && x_term is Some && t2a is Some && t2b is Some && t3a is Some
        && t3b is Some);
    if a1.y == a2.y && trig.cos_roll.bits >= 0 && z1 is Some && z2 is Some && z1->0 <= z2->0 {
        lemma_mul_o_keeps_order(z1, z2, cr);
        lemma_mul_o_keeps_order(mul_o(z1, cr), mul_o(z2, cr), cp);
    } else {
        lemma_mul_o_keeps_order(y1, y2, sr);
        lemma_mul_o_keeps_order(mul_o(y1, sr), mul_o(y2, sr), cp);
    }
    assert(sa->0 <= sb->0);
    lemma_mul_o_keeps_order(sa, sb, Some(GRAVITY_BITS as int));
}

} // verus!
