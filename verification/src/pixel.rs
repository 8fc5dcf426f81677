//! Pixel values: opaque, copyable, thread-shareable payloads with an
//! associated scalar component type.

use vstd::prelude::*;

verus! {

/// A pixel value in an image.
pub trait Pixel: Clone + Copy + Send + Sync {
    /// The scalar type used for pixel components.
    type Scalar: Copy + Send + Sync;
}

/// A red/green/blue pixel.
#[derive(Debug, Clone, Copy, PartialEq)]
pub struct Rgb<T> {
    pub r: T,
    pub g: T,
    pub b: T,
}

impl<T: Copy + Send + Sync> Pixel for Rgb<T> {
    type Scalar = T;
}

/// A grayscale pixel.
#[derive(Debug, Clone, Copy, PartialEq)]
pub struct Gray<T> {
    pub value: T,
}

impl<T: Copy + Send + Sync> Pixel for Gray<T> {
    type Scalar = T;
}

} // verus!
