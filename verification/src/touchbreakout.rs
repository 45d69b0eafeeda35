//! Position arithmetic of the 4-wire resistive touch panel.
use vstd::prelude::*;

use crate::soldering::sample_sum;

verus! {

/// Full scale of the summed samples: ten 12-bit readings.
pub const FULL_SCALE: i32 = 40960;

/// Integer division rounding toward zero, as Rust's `/` does.
pub open spec fn trunc_div(a: int, b: int) -> int {
    if a >= 0 {
        a / b
    } else {
        -((-a) / b)
    }
}

/// The panel and the size of the screen it covers.
pub struct TouchBreakout {
    pub x_max: i32,
    pub y_max: i32,
}

fn sum_samples(samples: &[u16; 10]) -> (s: i32)
    ensures
        s == sample_sum(samples@),
        0 <= s <= 655350,
{
    let mut s: i32 = 0;
    let mut i: usize = 0;
    while i < 10
        invariant
            i <= 10,
            s == sample_sum(samples@.take(i as int)),
            0 <= s <= i * 65535,
        decreases 10 - i,
    {
        proof {
            let t = samples@.take(i + 1);
            assert(t.drop_last() =~= samples@.take(i as int));
        }
        s = s + samples[i] as i32;
        i = i + 1;
    }
    proof {
        assert(samples@.take(10) =~= samples@);
    }
    s
}

impl TouchBreakout {
    pub fn new(x_max: i32, y_max: i32) -> (t: TouchBreakout)
        ensures
            t.x_max == x_max,
            t.y_max == y_max,
    {
        TouchBreakout { x_max, y_max }
    }

    /// Screen coordinate from the ten samples read on X+ while Y is driven:
    /// the sum scaled by `y_max` over the full scale, rounded toward zero.
    pub fn get_x(&self, samples: &[u16; 10]) -> (x: i32)
        requires
            i32::MIN <= sample_sum(samples@) * self.y_max <= i32::MAX,
        ensures
            x == trunc_div(sample_sum(samples@) * self.y_max, 40960),
    {
        let adc_val = sum_samples(samples);
        adc_val * self.y_max / FULL_SCALE
    }

    /// Screen coordinate from the ten samples read on Y+ while X is driven:
    /// `x_max` minus the sum scaled by `x_max` over the full scale.
    pub fn get_y(&self, samples: &[u16; 10]) -> (y: i32)
        requires
            i32::MIN <= sample_sum(samples@) * self.x_max <= i32::MAX,
            i32::MIN <= self.x_max - trunc_div(sample_sum(samples@) * self.x_max, 40960)
                <= i32::MAX,
        ensures
            y == self.x_max - trunc_div(sample_sum(samples@) * self.x_max, 40960),
    {
        let adc_val = sum_samples(samples);
        self.x_max - (adc_val * self.x_max / FULL_SCALE)
    }

    /// Pressure reading: the mean of the ten samples, rounded down.
    pub fn get_z(&self, samples: &[u16; 10]) -> (z: i32)
        ensures
            z == sample_sum(samples@) / 10,
    {
        let adc_val = sum_samples(samples);
        adc_val / 10
    }
}

} // verus!
