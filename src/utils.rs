use vstd::prelude::*;

verus! {

/// Column (`x`) and row (`y`) of a pixel.
#[derive(Clone, Copy, Debug, PartialEq, Eq, Structural)]
pub struct ImgCoords {
    pub x: u32,
    pub y: u32,
}

impl ImgCoords {
    pub fn new(x: u32, y: u32) -> (r: ImgCoords)
        ensures
            r.x == x,
            r.y == y,
    {
        ImgCoords { x, y }
    }
}

} // verus!
