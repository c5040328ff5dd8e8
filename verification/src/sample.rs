use vstd::prelude::*;

verus! {

/// One three-axis acceleration reading, in the sensor's raw units
/// (milli-g scale; only magnitudes relative to the threshold matter).
#[derive(Clone, Copy, PartialEq, Eq, Structural, Debug)]
pub struct Sample {
    pub x: i32,
    pub y: i32,
    pub z: i32,
}

impl Sample {
    pub fn new(x: i32, y: i32, z: i32) -> (s: Sample)
        ensures
            s == (Sample { x, y, z }),
    {
        Sample { x, y, z }
    }
}

} // verus!
