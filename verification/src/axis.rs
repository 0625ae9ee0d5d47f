//! Three-axis sensor values.
use vstd::prelude::*;

use crate::calibration_state::Axis as SensorAxis;
use crate::fixed_point::{fits_i32, floor_of, I16F16};

verus! {

/// One value per axis.
#[derive(Copy, Clone, Debug, PartialEq, Eq, Structural, Default)]
pub struct Axis<T> {
    pub x: T,
    pub y: T,
    pub z: T,
}

impl Axis<I16F16> {
    /// The integer parts of the three values (rounded towards minus
    /// infinity), in the order x, y, z.
    pub fn to_array(&mut self) -> (r: [i32; 3])
        ensures
            *final(self) == *old(self),
            r@ == seq![floor_of(old(self).x.bits) as i32, floor_of(old(self).y.bits) as i32, floor_of(old(self).z.bits) as i32],
    {
        let r = [self.x.to_i32(), self.y.to_i32(), self.z.to_i32()];
        assert(r@ =~= seq![floor_of(self.x.bits) as i32, floor_of(self.y.bits) as i32, floor_of(self.z.bits) as i32]);
        r
    }
}

impl Axis<I16F16> {
    /// A raw sensor reading as `I16F16` numbers: the bits are each value
    /// times 65536.
    pub fn from_sensor(v: SensorAxis) -> (r: Self)
        ensures
            r.x.bits == v.x * 0x10000,
            r.y.bits == v.y * 0x10000,
            r.z.bits == v.z * 0x10000,
    {
        Axis { x: I16F16::from_i32(v.x as i32), y: I16F16::from_i32(v.y as i32), z: I16F16::from_i32(v.z as i32) }
    }
}

impl Axis<i32> {
    /// Adds a raw sensor reading to running sums.
    pub fn add_sensor(self, v: SensorAxis) -> (r: Self)
        requires
            fits_i32(self.x + v.x),
            fits_i32(self.y + v.y),
            fits_i32(self.z + v.z),
        ensures
            r.x == self.x + v.x,
            r.y == self.y + v.y,
            r.z == self.z + v.z,
    {
        Axis { x: self.x + v.x as i32, y: self.y + v.y as i32, z: self.z + v.z as i32 }
    }
}

} // verus!
