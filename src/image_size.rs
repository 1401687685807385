//! Image dimensions in pixels.
use vstd::prelude::*;

verus! {

#[derive(Clone, Copy, Debug, PartialEq, Eq)]
pub struct ImageSize {
    pub width: usize,
    pub height: usize,
}

impl ImageSize {
    pub fn new(width: usize, height: usize) -> (r: ImageSize)
        ensures
            r.width == width,
            r.height == height,
    {
        ImageSize { width, height }
    }
}

} // verus!
