pub mod bubble;
pub mod coswave;
pub mod flatwave;
pub mod rangefrac;
pub mod spinflake;

use crate::game::draw_between;
use crate::types::{Area, FishError, PixelPoint};
use rand::rngs::SmallRng;
use vstd::arithmetic::div_mod::{lemma_mod_add_multiples_vanish, lemma_small_mod};
use vstd::prelude::*;

verus! {

/// The procedural value functions the engine can render.
#[derive(Debug, Clone, Copy, PartialEq, Eq)]
pub enum Generators {
    /// A plain test pattern, never drawn at random.
    Test,
    /// Interfering circular waves around an origin.
    Coswave,
    /// A rotationally symmetric blob with a perturbed edge.
    Spinflake,
    /// Interfering linear wave packets.
    Flatwave,
    /// A midpoint-displacement fractal.
    Rangefrac,
    /// Lumpy fields of squished bubbles.
    Bubble,
}

/// The generator picked by a draw in `0..5`.
pub open spec fn generator_of_draw(d: int) -> Generators {
    if d == 0 {
        Generators::Coswave
    } else if d == 1 {
        Generators::Spinflake
    } else if d == 2 {
        Generators::Flatwave
    } else if d == 3 {
        Generators::Rangefrac
    } else {
        Generators::Bubble
    }
}

impl Generators {
    pub fn from_draw(d: usize) -> (r: Generators)
        requires
            d < 5,
        ensures
            r == generator_of_draw(d as int),
    {
        if d == 0 {
            Generators::Coswave
        } else if d == 1 {
            Generators::Spinflake
        } else if d == 2 {
            Generators::Flatwave
        } else if d == 3 {
            Generators::Rangefrac
        } else {
            Generators::Bubble
        }
    }

    /// One of the five real generators, uniformly.
    pub fn random(rng: &mut SmallRng) -> (r: Generators)
        ensures
            r != Generators::Test,
            exists|d: int| 0 <= d < 5 && r == generator_of_draw(d),
    {
        let d = draw_between(rng, 0, 4);
        Generators::from_draw(d)
    }
}

/// Whether a generator smooths its own output, so that the engine need not
/// supersample it.
pub open spec fn self_anti_aliased(g: Generators) -> bool {
    g == Generators::Rangefrac
}

/// Whether a generator is periodic over the unit tile on its own, so that the
/// engine need not blend in the opposite edges.
pub open spec fn self_seamless(g: Generators) -> bool {
    g == Generators::Spinflake || g == Generators::Rangefrac
}

/// The pair of properties through which the engine treats a generator.
#[derive(Debug, Clone, Copy, PartialEq, Eq)]
pub struct GeneratorProperty {
    pub is_anti_aliased: bool,
    pub is_seamless: bool,
}

impl GeneratorProperty {
    pub fn get(generator: &Generators) -> (r: GeneratorProperty)
        ensures
            r.is_anti_aliased == self_anti_aliased(*generator),
            r.is_seamless == self_seamless(*generator),
    {
        match generator {
            Generators::Test => GeneratorProperty { is_anti_aliased: false, is_seamless: false },
            Generators::Coswave => GeneratorProperty { is_anti_aliased: false, is_seamless: false },
            Generators::Spinflake => GeneratorProperty { is_anti_aliased: false, is_seamless: true },
            Generators::Flatwave => GeneratorProperty { is_anti_aliased: false, is_seamless: false },
            Generators::Rangefrac => GeneratorProperty { is_anti_aliased: true, is_seamless: true },
            Generators::Bubble => GeneratorProperty { is_anti_aliased: false, is_seamless: false },
        }
    }
}

/// How a cosine in `-1..=1` is folded into `0..=1`.
#[derive(Debug, Clone, Copy, PartialEq, Eq)]
pub enum PackMethods {
    /// Halve and lift: `(c + 1) / 2`.
    ScaleToFit,
    /// Take the absolute value.
    FlipSignToFit,
    /// Add one to negative values.
    TruncateToFit,
    /// Reduce the phase modulo pi first, giving a sawtooth.
    SlopeToFit,
}

/// The pack method picked by a draw in `0..4`.
pub open spec fn pack_of_draw(d: int) -> PackMethods {
    if d == 0 {
        PackMethods::ScaleToFit
    } else if d == 1 {
        PackMethods::FlipSignToFit
    } else if d == 2 {
        PackMethods::TruncateToFit
    } else {
        PackMethods::SlopeToFit
    }
}

impl PackMethods {
    pub fn from_draw(d: usize) -> (r: PackMethods)
        requires
            d < 4,
        ensures
            r == pack_of_draw(d as int),
    {
        if d == 0 {
            PackMethods::ScaleToFit
        } else if d == 1 {
            PackMethods::FlipSignToFit
        } else if d == 2 {
            PackMethods::TruncateToFit
        } else {
            PackMethods::SlopeToFit
        }
    }

    pub fn random(rng: &mut SmallRng) -> (r: PackMethods)
        ensures
            exists|d: int| 0 <= d < 4 && r == pack_of_draw(d),
    {
        let d = draw_between(rng, 0, 3);
        PackMethods::from_draw(d)
    }

    /// Folding by sign or truncation turns valleys into peaks and so doubles
    /// the visible frequency; a wave folded by scaling gets twice the scale
    /// to match.
    pub fn doubles_scale(&self) -> (r: bool)
        ensures
            r == (*self == PackMethods::ScaleToFit),
    {
        match self {
            PackMethods::ScaleToFit => true,
            _ => false,
        }
    }
}

/// The per-render shift of pixel coordinates, one per axis.
#[derive(Debug, Default, Clone, Copy, PartialEq, Eq)]
pub struct RollVector {
    pub x: usize,
    pub y: usize,
}

impl RollVector {
    pub fn new(x: usize, y: usize) -> (r: Self)
        ensures
            r.x == x,
            r.y == y,
    {
        RollVector { x, y }
    }

    /// A roll of at most the raster's size on each axis.
    pub fn random(rng: &mut SmallRng, size: Area) -> (r: Self)
        ensures
            r.x <= size.width,
            r.y <= size.height,
    {
        let x = draw_between(rng, 0, size.width);
        let y = draw_between(rng, 0, size.height);
        RollVector::new(x, y)
    }
}

/// The address that pixel `(x, y)` samples under a roll, wrapped onto the
/// raster.
pub open spec fn rolled(x: int, y: int, size: Area, roll: RollVector) -> PixelPoint {
    PixelPoint {
        x: ((x + roll.x) % (size.width as int)) as usize,
        y: ((y + roll.y) % (size.height as int)) as usize,
    }
}

/// The address a pixel samples once the roll is applied, wrapped onto the
/// raster.
pub fn roll_pixel(pixel: PixelPoint, size: Area, roll: RollVector) -> (r: Result<PixelPoint, FishError>)
    requires
        roll.x <= size.width,
        roll.y <= size.height,
    ensures
        r is Err <==> !size.holds(pixel.x as int, pixel.y as int),
        r is Err ==> r == Err::<PixelPoint, FishError>(FishError::PixelOutOfBounds),
        r is Ok ==> r->Ok_0 == rolled(pixel.x as int, pixel.y as int, size, roll),
        r is Ok ==> size.holds(r->Ok_0.x as int, r->Ok_0.y as int),
{
    if pixel.x >= size.width || pixel.y >= size.height {
        return Err(FishError::PixelOutOfBounds);
    }
    let x = if pixel.x >= size.width - roll.x {
        pixel.x - (size.width - roll.x)
    } else {
        pixel.x + roll.x
    };
    let y = if pixel.y >= size.height - roll.y {
        pixel.y - (size.height - roll.y)
    } else {
        pixel.y + roll.y
    };
    proof {
        lemma_wrap_once(pixel.x as int, roll.x as int, size.width as int);
        lemma_wrap_once(pixel.y as int, roll.y as int, size.height as int);
    }
    Ok(PixelPoint::new(x, y))
}

proof fn lemma_wrap_once(p: int, roll: int, side: int)
    requires
        0 <= p < side,
        0 <= roll <= side,
    ensures
        p + roll < side ==> (p + roll) % side == p + roll,
        p + roll >= side ==> (p + roll) % side == p + roll - side,
{
    if p + roll < side {
        lemma_small_mod((p + roll) as nat, side as nat);
    } else {
        lemma_small_mod((p + roll - side) as nat, side as nat);
        lemma_mod_add_multiples_vanish(p + roll - side, side);
    }
}

/// The addresses that every pixel of a raster samples under a roll, row by
/// row.
pub fn rolled_addresses(size: Area, roll: RollVector) -> (r: Vec<Vec<PixelPoint>>)
    requires
        roll.x <= size.width,
        roll.y <= size.height,
    ensures
        r@.len() == size.height,
        forall|y: int| 0 <= y < size.height ==> (#[trigger] r@[y])@.len() == size.width,
        forall|y: int, x: int|
            0 <= y < size.height && 0 <= x < size.width ==> #[trigger] r@[y]@[x] == rolled(
                x,
                y,
                size,
                roll,
            ),
{
    let mut rows: Vec<Vec<PixelPoint>> = Vec::new();
    let mut y: usize = 0;
    while y < size.height
        invariant
            y <= size.height,
            roll.x <= size.width,
            roll.y <= size.height,
            rows@.len() == y,
            forall|j: int| 0 <= j < y ==> (#[trigger] rows@[j])@.len() == size.width,
            forall|j: int, x: int|
                0 <= j < y && 0 <= x < size.width ==> #[trigger] rows@[j]@[x] == rolled(
                    x,
                    j,
                    size,
                    roll,
                ),
        decreases size.height - y,
    {
        let mut row: Vec<PixelPoint> = Vec::new();
        let mut x: usize = 0;
        while x < size.width
            invariant
                x <= size.width,
                y < size.height,
                roll.x <= size.width,
                roll.y <= size.height,
                row@.len() == x,
                forall|i: int| 0 <= i < x ==> #[trigger] row@[i] == rolled(i, y as int, size, roll),
            decreases size.width - x,
        {
            match roll_pixel(PixelPoint::new(x, y), size, roll) {
                Ok(p) => row.push(p),
                Err(_) => {
                    // refused only for pixels outside the area
                    assert(false);
                },
            }
            x = x + 1;
        }
        rows.push(row);
        y = y + 1;
    }
    rows
}

} // verus!
