use crate::game::draw_between;
use rand::rngs::SmallRng;
use vstd::prelude::*;

verus! {

/// One draw in this many turns on the linear acceleration of the wave scale.
pub const LINEAR_ACCEL_ODDS: usize = 64;

/// Whether the wave scale grows with the distance from the origin.
#[derive(Debug, Clone, Copy, PartialEq, Eq)]
pub enum WaveAccelMethods {
    /// The wave scale is constant.
    Constant,
    /// The wave scale is raised to a power of the distance, a rare and
    /// chaotic moire.
    Linear,
}

impl WaveAccelMethods {
    /// Linear acceleration for the draw `0` of `0..LINEAR_ACCEL_ODDS`, none
    /// otherwise.
    pub fn from_draw(d: usize) -> (r: WaveAccelMethods)
        requires
            d < LINEAR_ACCEL_ODDS,
        ensures
            r == (if d == 0 {
                WaveAccelMethods::Linear
            } else {
                WaveAccelMethods::Constant
            }),
    {
        if d == 0 {
            WaveAccelMethods::Linear
        } else {
            WaveAccelMethods::Constant
        }
    }

    pub fn random(rng: &mut SmallRng) -> WaveAccelMethods {
        let d = draw_between(rng, 0, LINEAR_ACCEL_ODDS - 1);
        WaveAccelMethods::from_draw(d)
    }
}

} // verus!
