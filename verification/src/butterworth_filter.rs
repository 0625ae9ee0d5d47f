//! A low-pass filter on raw accelerometer and gyroscope readings: each new
//! output keeps 99/100 of the previous output and adds half of the previous
//! and half of the current input, clamped to `i16`.
use vstd::prelude::*;

use crate::calibration_state::{trunc_div, Axis as SensorAxis};

verus! {

/// How many outputs the filter looks back over: the old output keeps
/// `(LOOK_BACK_ELEMENTS - 1) / LOOK_BACK_ELEMENTS` of its weight.
pub const LOOK_BACK_ELEMENTS: i32 = 100;

/// `v` clamped to the range of `i16`.
pub open spec fn clamp_i16(v: int) -> i16 {
    if v < i16::MIN {
        i16::MIN
    } else if v > i16::MAX {
        i16::MAX
    } else {
        v as i16
    }
}

/// The next output for one value: the previous output times 99/100, plus
/// half the previous input, plus half the current input (each division
/// rounding towards zero), clamped to `i16`.
pub open spec fn filtered(y_prev: i16, x_prev: i16, x_cur: i16) -> i16 {
    clamp_i16(
        trunc_div((LOOK_BACK_ELEMENTS - 1) * y_prev, LOOK_BACK_ELEMENTS as int) + trunc_div(x_prev as int, 2)
            + trunc_div(x_cur as int, 2),
    )
}

/// The filter applied to each axis.
pub open spec fn filtered_axis(y_prev: SensorAxis, x_prev: SensorAxis, x_cur: SensorAxis) -> SensorAxis {
    SensorAxis {
        x: filtered(y_prev.x, x_prev.x, x_cur.x),
        y: filtered(y_prev.y, x_prev.y, x_cur.y),
        z: filtered(y_prev.z, x_prev.z, x_cur.z),
    }
}

/// The filter's output and the input it last took (accelerometer, then
/// gyroscope).
pub struct ButterWorth {
    pub output: (SensorAxis, SensorAxis),
    pub prev_input: (SensorAxis, SensorAxis),
}

/// One value through the filter.
fn filter_value(y_prev: i16, x_prev: i16, x_cur: i16) -> (r: i16)
    ensures
        r == filtered(y_prev, x_prev, x_cur),
{
    let y_prev: i32 = y_prev as i32;
    let x_prev: i32 = x_prev as i32;
    let x_cur: i32 = x_cur as i32;
    let keep: i32 = LOOK_BACK_ELEMENTS - 1i32;
    assert(-32768 * 99 <= keep * y_prev <= 32767 * 99) by (nonlinear_arith)
        requires
            keep == 99,
            -32768 <= y_prev <= 32767,
    ;
    let y_cur: i32 = ((keep * y_prev) / LOOK_BACK_ELEMENTS) + (x_prev / 2i32) + (x_cur / 2i32);
    if y_cur < i16::MIN as i32 {
        i16::MIN
    } else if y_cur > i16::MAX as i32 {
        i16::MAX
    } else {
        y_cur as i16
    }
}

impl ButterWorth {
    /// A filter that starts with this reading as both output and input.
    pub fn new(input: (SensorAxis, SensorAxis)) -> (r: Self)
        ensures
            r.output == input,
            r.prev_input == input,
    {
        ButterWorth { output: input, prev_input: input }
    }

    /// Takes in a new reading: every value of the output moves as
    /// `filtered` says, and the reading becomes the previous input.
    pub fn append_new_reading(&mut self, input: (SensorAxis, SensorAxis))
        ensures
            final(self).output == (
                filtered_axis(old(self).output.0, old(self).prev_input.0, input.0),
                filtered_axis(old(self).output.1, old(self).prev_input.1, input.1),
            ),
            final(self).prev_input == input,
    {
        let cur_input_arr: [i16; 6] = [input.0.x, input.0.y, input.0.z, input.1.x, input.1.y, input.1.z];
        let prev_output_arr: [i16; 6] = [
            self.output.0.x,
            self.output.0.y,
            self.output.0.z,
            self.output.1.x,
            self.output.1.y,
            self.output.1.z,
        ];
        let prev_input_arr: [i16; 6] = [
            self.prev_input.0.x,
            self.prev_input.0.y,
            self.prev_input.0.z,
            self.prev_input.1.x,
            self.prev_input.1.y,
            self.prev_input.1.z,
        ];
        let mut cur_output: [i16; 6] = [0, 0, 0, 0, 0, 0];
        let mut i: usize = 0;
        while i < 6
            invariant
                i <= 6,
                forall|j: int|
                    0 <= j < i ==> cur_output@[j] == filtered(prev_output_arr@[j], prev_input_arr@[j], cur_input_arr@[j]),
            decreases 6 - i,
        {
            cur_output[i] = filter_value(prev_output_arr[i], prev_input_arr[i], cur_input_arr[i]);
            i += 1;
        }
        self.output = (
            SensorAxis { x: cur_output[0], y: cur_output[1], z: cur_output[2] },
            SensorAxis { x: cur_output[3], y: cur_output[4], z: cur_output[5] },
        );
        self.prev_input = input;
    }
}

} // verus!
