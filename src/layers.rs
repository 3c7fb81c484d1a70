use crate::game::{draw_between, maybe};
use crate::generators::Generators;
use crate::types::FishError;
use rand::rngs::SmallRng;
use vstd::prelude::*;

verus! {

/// Layers of a composite image, at least.
pub const MIN_LAYERS: usize = 2;

/// Layers of a composite image, at most.
pub const MAX_LAYERS: usize = 6;

pub open spec fn layer_count_ok(n: int) -> bool {
    MIN_LAYERS <= n <= MAX_LAYERS
}

/// The layer count of a composite: the requested one when it is in range, the
/// drawn one when none was requested.
pub fn layer_count_from(requested: Option<usize>, drawn: usize) -> (r: Result<usize, FishError>)
    requires
        layer_count_ok(drawn as int),
    ensures
        requested is None ==> r == Ok::<usize, FishError>(drawn),
        requested is Some ==> {
            let n = requested->Some_0;
            &&& layer_count_ok(n as int) ==> r == Ok::<usize, FishError>(n)
            &&& !layer_count_ok(n as int) ==> r == Err::<usize, FishError>(
                FishError::LayerCountOutOfRange,
            )
        },
{
    match requested {
        Some(n) => {
            if MIN_LAYERS <= n && n <= MAX_LAYERS {
                Ok(n)
            } else {
                Err(FishError::LayerCountOutOfRange)
            }
        },
        None => Ok(drawn),
    }
}

/// Validates a requested layer count, or draws one uniformly in range.
pub fn choose_layer_count(requested: Option<usize>, rng: &mut SmallRng) -> (r: Result<
    usize,
    FishError,
>)
    ensures
        requested is None ==> r is Ok && layer_count_ok(r->Ok_0 as int),
        requested is Some ==> {
            let n = requested->Some_0;
            &&& layer_count_ok(n as int) ==> r == Ok::<usize, FishError>(n)
            &&& !layer_count_ok(n as int) ==> r == Err::<usize, FishError>(
                FishError::LayerCountOutOfRange,
            )
        },
{
    match requested {
        Some(n) => layer_count_from(Some(n), MIN_LAYERS),
        None => {
            let drawn = draw_between(rng, MIN_LAYERS, MAX_LAYERS);
            layer_count_from(None, drawn)
        },
    }
}

/// Which palette entry to use: none for a palette of fewer than two colours,
/// whose colours are then drawn freely, else an index into it.
pub fn palette_index(len: usize, rng: &mut SmallRng) -> (r: Option<usize>)
    ensures
        len < 2 <==> r is None,
        r is Some ==> r->Some_0 < len,
{
    if len > 1 {
        Some(draw_between(rng, 0, len - 1))
    } else {
        None
    }
}

/// The random choices of one layer that are not colours: its generator, shared
/// by the image and the mask, whether it has a mask of its own, and whether the
/// mask is inverted.
#[derive(Debug, Clone, Copy, PartialEq, Eq)]
pub struct LayerPlan {
    pub kind: Generators,
    pub has_mask: bool,
    pub invert_mask: bool,
}

impl LayerPlan {
    pub fn random(rng: &mut SmallRng) -> (r: LayerPlan)
        ensures
            r.kind != Generators::Test,
    {
        let kind = Generators::random(rng);
        let has_mask = maybe(rng);
        let invert_mask = maybe(rng);
        LayerPlan { kind, has_mask, invert_mask }
    }
}

} // verus!
