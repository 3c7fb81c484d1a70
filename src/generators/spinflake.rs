use crate::game::draw_between;
use rand::rngs::SmallRng;
use vstd::prelude::*;

verus! {

/// The largest draw for the number of florets; one more floret than the
/// draw is made.
pub const MAX_FLORETS: usize = 3;

/// The largest draw for the number of spines of a floret; one more spine
/// than the draw is made.
pub const MAX_SPINE_DRAW: usize = 15;

/// How a sine in `-1..=1` is made non-negative.
#[derive(Debug, Clone, Copy, PartialEq, Eq)]
pub enum SinePositivizingMethods {
    /// Halve and lift.
    CompressMethod,
    /// Add one to negative values.
    TruncateMethod,
    /// Take the absolute value, which doubles the visible spines.
    AbsoluteMethod,
    /// A sawtooth from a reduced phase.
    SawbladeMethod,
}

pub open spec fn sinepos_of_draw(d: int) -> SinePositivizingMethods {
    if d == 0 {
        SinePositivizingMethods::CompressMethod
    } else if d == 1 {
        SinePositivizingMethods::TruncateMethod
    } else if d == 2 {
        SinePositivizingMethods::AbsoluteMethod
    } else {
        SinePositivizingMethods::SawbladeMethod
    }
}

impl SinePositivizingMethods {
    pub fn from_draw(d: usize) -> (r: SinePositivizingMethods)
        requires
            d < 4,
        ensures
            r == sinepos_of_draw(d as int),
    {
        if d == 0 {
            SinePositivizingMethods::CompressMethod
        } else if d == 1 {
            SinePositivizingMethods::TruncateMethod
        } else if d == 2 {
            SinePositivizingMethods::AbsoluteMethod
        } else {
            SinePositivizingMethods::SawbladeMethod
        }
    }

    pub fn random(rng: &mut SmallRng) -> (r: SinePositivizingMethods)
        ensures
            exists|d: int| 0 <= d < 4 && r == sinepos_of_draw(d),
    {
        let d = draw_between(rng, 0, 3);
        SinePositivizingMethods::from_draw(d)
    }
}

/// How a floret's spines twist with the distance from the origin.
#[derive(Debug, Clone, Copy, PartialEq, Eq)]
pub enum TwirlMethods {
    NoneMethod,
    CurveMethod,
    SineMethod,
}

pub open spec fn twirl_of_draw(d: int) -> TwirlMethods {
    if d == 0 {
        TwirlMethods::NoneMethod
    } else if d == 1 {
        TwirlMethods::CurveMethod
    } else {
        TwirlMethods::SineMethod
    }
}

impl TwirlMethods {
    pub fn from_draw(d: usize) -> (r: TwirlMethods)
        requires
            d < 3,
        ensures
            r == twirl_of_draw(d as int),
    {
        if d == 0 {
            TwirlMethods::NoneMethod
        } else if d == 1 {
            TwirlMethods::CurveMethod
        } else {
            TwirlMethods::SineMethod
        }
    }

    pub fn random(rng: &mut SmallRng) -> (r: TwirlMethods)
        ensures
            exists|d: int| 0 <= d < 3 && r == twirl_of_draw(d),
    {
        let d = draw_between(rng, 0, 2);
        TwirlMethods::from_draw(d)
    }
}

/// The number of spines of a floret: one more than the draw, and made even
/// under the absolute method, which would otherwise show a doubled spine.
pub open spec fn spines_of(d: int, method: SinePositivizingMethods) -> int {
    if method == SinePositivizingMethods::AbsoluteMethod && (d + 1) % 2 == 1 {
        d + 2
    } else {
        d + 1
    }
}

pub fn spines_from_draw(d: usize, method: SinePositivizingMethods) -> (r: i32)
    requires
        d <= MAX_SPINE_DRAW,
    ensures
        r == spines_of(d as int, method),
        1 <= r <= 16,
        method == SinePositivizingMethods::AbsoluteMethod ==> r % 2 == 0,
{
    let spines = (d + 1) as i32;
    match method {
        SinePositivizingMethods::AbsoluteMethod => {
            if spines % 2 == 1 {
                spines + 1
            } else {
                spines
            }
        },
        _ => spines,
    }
}

pub fn random_spines(rng: &mut SmallRng, method: SinePositivizingMethods) -> (r: i32)
    ensures
        1 <= r <= 16,
        method == SinePositivizingMethods::AbsoluteMethod ==> r % 2 == 0,
{
    let d = draw_between(rng, 0, MAX_SPINE_DRAW);
    spines_from_draw(d, method)
}

/// The number of florets for a draw in `0..=MAX_FLORETS`.
pub fn floret_count_from_draw(d: usize) -> (r: usize)
    requires
        d <= MAX_FLORETS,
    ensures
        r == d + 1,
{
    d + 1
}

/// The number of florets of a random spinflake.
pub fn random_floret_count(rng: &mut SmallRng) -> (r: usize)
    ensures
        1 <= r <= MAX_FLORETS + 1,
{
    let d = draw_between(rng, 0, MAX_FLORETS);
    floret_count_from_draw(d)
}

} // verus!
