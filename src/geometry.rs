use vstd::prelude::*;

verus! {

/// Unit tag for screen space: an integer pixel grid whose origin is the top
/// left corner.
pub struct Screen;

/// Unit tag for world space, the coordinates of the game logic that are
/// projected to screen space before they reach a canvas.
pub struct World;

/// A position on screen, where (0, 0) is the top left corner.
#[derive(Clone, Copy, Debug, PartialEq, Eq, Structural)]
pub struct ScreenPos {
    pub x: u32,
    pub y: u32,
}

/// A size on screen, in pixels.
#[derive(Clone, Copy, Debug, PartialEq, Eq, Structural)]
pub struct ScreenSize {
    pub width: u32,
    pub height: u32,
}

impl ScreenPos {
    pub fn new(x: u32, y: u32) -> (r: ScreenPos)
        ensures
            r.x == x,
            r.y == y,
    {
        ScreenPos { x, y }
    }

    pub fn zero() -> (r: ScreenPos)
        ensures
            r.x == 0,
            r.y == 0,
    {
        ScreenPos { x: 0, y: 0 }
    }
}

impl ScreenSize {
    pub fn new(width: u32, height: u32) -> (r: ScreenSize)
        ensures
            r.width == width,
            r.height == height,
    {
        ScreenSize { width, height }
    }

    /// The number of pixels in an area of this size.
    pub open spec fn area(self) -> int {
        self.width * self.height
    }
}

} // verus!
