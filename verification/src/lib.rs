//! A library for lazily evaluated, composable 2-D pixel-access pipelines,
//! together with the exact-arithmetic coordinate algebra (rational scalars,
//! offsets, absolute places, affine transforms) that drives its geometric
//! resampling combinator.

pub mod bignum;
pub mod image;
pub mod offset;
pub mod ops;
pub mod pixel;
pub mod place;
pub mod processor;
pub mod rat;
pub mod scalar;
pub mod transform;
pub mod scale;

pub use rat::Rat;
pub use scalar::Real;
pub use scale::Scale;
pub use offset::Offset;
pub use place::Place;
pub use pixel::Gray;
pub use pixel::Pixel;
pub use pixel::Rgb;
pub use processor::Chain;
pub use processor::Filter;
pub use processor::GradientProcessor;
pub use processor::ImageProcessor;
pub use processor::Mapped;
pub use processor::TestProcessor;
pub use transform::AffineTransform;
pub use transform::TransformExt;
pub use transform::Transformed;
pub use ops::Backend;
pub use ops::BackendError;
pub use ops::BackendProcessor;
pub use ops::CpuBackend;
pub use ops::GpuBackend;
pub use ops::Operation;
pub use ops::OperationBuilder;
pub use ops::PointwiseOp;
pub use image::Image;
