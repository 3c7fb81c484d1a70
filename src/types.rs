use vstd::prelude::*;

verus! {

/// The raster resolution of one generated layer.
#[derive(Debug, Default, Clone, Copy, PartialEq, Eq)]
pub struct Area {
    pub width: usize,
    pub height: usize,
}

impl Area {
    pub fn new(width: usize, height: usize) -> (r: Self)
        ensures
            r.width == width,
            r.height == height,
    {
        Area { width, height }
    }

    /// A raster can be rendered only when both sides are positive.
    pub open spec fn is_renderable(self) -> bool {
        self.width > 0 && self.height > 0
    }

    /// Whether `(x, y)` addresses a pixel of this area.
    pub open spec fn holds(self, x: int, y: int) -> bool {
        0 <= x < self.width && 0 <= y < self.height
    }

    pub fn contains(&self, pixel: PixelPoint) -> (r: bool)
        ensures
            r == self.holds(pixel.x as int, pixel.y as int),
    {
        pixel.x < self.width && pixel.y < self.height
    }
}

/// The integer address of one pixel of a raster.
#[derive(Debug, Default, Clone, Copy, PartialEq, Eq)]
pub struct PixelPoint {
    pub x: usize,
    pub y: usize,
}

impl PixelPoint {
    pub fn new(x: usize, y: usize) -> (r: Self)
        ensures
            r.x == x,
            r.y == y,
    {
        PixelPoint { x, y }
    }
}

/// Why a request was refused.
#[derive(Debug, Clone, Copy, PartialEq, Eq)]
pub enum FishError {
    /// A raster with no width or no height was asked for.
    EmptyArea,
    /// A pixel outside the raster was asked for.
    PixelOutOfBounds,
    /// A layer count outside the accepted range was supplied.
    LayerCountOutOfRange,
    /// A cutoff threshold outside the accepted range was supplied.
    CutoffOutOfRange,
    /// A palette colour has a channel outside the unit interval.
    ColourOutOfRange,
    /// Every colour of the palette is the same, so no foreground can differ
    /// from the background.
    DegeneratePalette,
}

/// Accepts an area only when both sides are positive.
pub fn check_area(size: Area) -> (r: Result<(), FishError>)
    ensures
        r is Ok <==> size.is_renderable(),
        r is Err ==> r == Err::<(), FishError>(FishError::EmptyArea),
{
    if size.width > 0 && size.height > 0 {
        Ok(())
    } else {
        Err(FishError::EmptyArea)
    }
}

/// Accepts a pixel only when it lies inside the area.
pub fn check_pixel(size: Area, x: usize, y: usize) -> (r: Result<(), FishError>)
    ensures
        r is Ok <==> size.holds(x as int, y as int),
        r is Err ==> r == Err::<(), FishError>(FishError::PixelOutOfBounds),
{
    if x < size.width && y < size.height {
        Ok(())
    } else {
        Err(FishError::PixelOutOfBounds)
    }
}

} // verus!
