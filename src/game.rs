use rand::rngs::SmallRng;
use rand::Rng;
use vstd::prelude::*;

verus! {

/// The random source that every sampling function consumes. Callers own it
/// and choose its seed.
#[verifier::external_type_specification]
#[verifier::external_body]
pub struct ExSmallRng(SmallRng);

/// Relies on rand's `Rng::gen_range` on an inclusive range of `usize`: it
/// panics only on an empty range and otherwise returns a value inside it.
#[verifier::external_body]
pub(crate) fn draw_between(rng: &mut SmallRng, low: usize, high: usize) -> (r: usize)
    requires
        low <= high,
    ensures
        low <= r <= high,
{
    rng.gen_range(low..=high)
}

/// The face of a coin for a draw in `0..=1`: heads for `0`.
pub fn coin_from_draw(d: usize) -> (r: bool)
    requires
        d <= 1,
    ensures
        r == (d == 0),
{
    d == 0
}

/// A fair coin.
pub fn maybe(rng: &mut SmallRng) -> bool {
    let d = draw_between(rng, 0, 1);
    coin_from_draw(d)
}

} // verus!
