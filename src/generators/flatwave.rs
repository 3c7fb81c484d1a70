use crate::game::draw_between;
use rand::rngs::SmallRng;
use vstd::prelude::*;

verus! {

/// The largest draw for the number of wave packets; one more packet than
/// the draw is made.
pub const MAX_WAVE_PACKETS: usize = 3;

/// How the values of several wave packets combine into one.
#[derive(Debug, Clone, Copy, PartialEq, Eq)]
pub enum InterferenceMethods {
    /// Keep the value farthest from one half.
    MostExtreme,
    /// Keep the value nearest to one half.
    LeastExtreme,
    /// Keep the largest value.
    Max,
    /// Keep the smallest value.
    Min,
    /// Average all the values.
    Average,
}

pub open spec fn interference_of_draw(d: int) -> InterferenceMethods {
    if d == 0 {
        InterferenceMethods::MostExtreme
    } else if d == 1 {
        InterferenceMethods::LeastExtreme
    } else if d == 2 {
        InterferenceMethods::Max
    } else if d == 3 {
        InterferenceMethods::Min
    } else {
        InterferenceMethods::Average
    }
}

impl InterferenceMethods {
    pub fn from_draw(d: usize) -> (r: InterferenceMethods)
        requires
            d < 5,
        ensures
            r == interference_of_draw(d as int),
    {
        if d == 0 {
            InterferenceMethods::MostExtreme
        } else if d == 1 {
            InterferenceMethods::LeastExtreme
        } else if d == 2 {
            InterferenceMethods::Max
        } else if d == 3 {
            InterferenceMethods::Min
        } else {
            InterferenceMethods::Average
        }
    }

    pub fn random(rng: &mut SmallRng) -> (r: InterferenceMethods)
        ensures
            exists|d: int| 0 <= d < 5 && r == interference_of_draw(d),
    {
        let d = draw_between(rng, 0, 4);
        InterferenceMethods::from_draw(d)
    }
}

/// Whether a secondary wave modulates a wave's phase.
#[derive(Debug, Clone, Copy, PartialEq, Eq)]
pub enum AccelMethods {
    Enabled,
    Disabled,
}

impl AccelMethods {
    pub fn from_draw(d: usize) -> (r: AccelMethods)
        requires
            d < 2,
        ensures
            r == (if d == 0 {
                AccelMethods::Enabled
            } else {
                AccelMethods::Disabled
            }),
    {
        if d == 0 {
            AccelMethods::Enabled
        } else {
            AccelMethods::Disabled
        }
    }

    pub fn random(rng: &mut SmallRng) -> AccelMethods {
        let d = draw_between(rng, 0, 1);
        AccelMethods::from_draw(d)
    }
}

/// The number of wave packets for a draw in `1..=MAX_WAVE_PACKETS`.
pub fn packet_count_from_draw(d: usize) -> (r: usize)
    requires
        1 <= d <= MAX_WAVE_PACKETS,
    ensures
        r == d + 1,
{
    d + 1
}

/// The number of wave packets of a random flatwave.
pub fn random_packet_count(rng: &mut SmallRng) -> (r: usize)
    ensures
        2 <= r <= MAX_WAVE_PACKETS + 1,
{
    let d = draw_between(rng, 1, MAX_WAVE_PACKETS);
    packet_count_from_draw(d)
}

} // verus!
