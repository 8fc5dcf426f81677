//! The image abstraction over absolute points: a total per-place lookup,
//! for collaborators to implement.

use vstd::prelude::*;

verus! {

use crate::place::Place;

/// A total image: every absolute place has a pixel.
pub trait Image {
    /// The pixel type this image produces.
    type Pixel;

    /// The pixel at the place `p`.
    fn get(&self, p: Place) -> Self::Pixel;
}

} // verus!
