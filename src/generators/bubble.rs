use crate::game::draw_between;
use rand::rngs::SmallRng;
use vstd::prelude::*;

verus! {

/// Bubbles of a field, at most (exclusive).
pub const MAX_BUBBLES: usize = 32;

/// Bubbles of a field, at least.
pub const MIN_BUBBLES: usize = 8;

/// The number of bubbles of a random field.
pub fn random_bubble_count(rng: &mut SmallRng) -> (r: usize)
    ensures
        MIN_BUBBLES <= r < MAX_BUBBLES,
{
    draw_between(rng, MIN_BUBBLES, MAX_BUBBLES - 1)
}

} // verus!
