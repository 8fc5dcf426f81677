//! Tests for affine transforms and the resampling combinator.

use flipr::AffineTransform;
use flipr::Gray;
use flipr::GradientProcessor;
use flipr::ImageProcessor;
use flipr::Real;
use flipr::TransformExt;

fn r64(v: f64) -> Real {
    Real::from_bits(v.to_bits()).unwrap()
}

#[test]
fn test_identity_transform() {
    let t = AffineTransform::identity();
    let (x, y) = t.transform_point(&r64(10.0), &r64(20.0));
    assert_eq!(x, r64(10.0));
    assert_eq!(y, r64(20.0));
}

#[test]
fn test_translation() {
    let t = AffineTransform::translation(r64(5.0), r64(10.0));
    let (x, y) = t.transform_point(&r64(10.0), &r64(20.0));
    assert_eq!(x, r64(15.0));
    assert_eq!(y, r64(30.0));
}

#[test]
fn test_scaling() {
    let t = AffineTransform::scale(r64(2.0), r64(3.0));
    let (x, y) = t.transform_point(&r64(10.0), &r64(20.0));
    assert_eq!(x, r64(20.0));
    assert_eq!(y, r64(60.0));
}

#[test]
fn test_inverse() {
    let t = AffineTransform::translation(r64(5.0), r64(10.0));
    let inv = t.inverse().unwrap();
    let (x, y) = t.transform_point(&r64(10.0), &r64(20.0));
    let (x2, y2) = inv.transform_point(&x, &y);
    assert_eq!(x2, r64(10.0));
    assert_eq!(y2, r64(20.0));
}

#[test]
fn test_composition() {
    let t1 = AffineTransform::translation(r64(5.0), r64(10.0));
    let t2 = AffineTransform::scale(r64(2.0), r64(2.0));
    let composed = t1.compose(&t2);

    let (x1, y1) = t1.transform_point(&r64(10.0), &r64(20.0));
    let (x2, y2) = t2.transform_point(&x1, &y1);
    let (x3, y3) = composed.transform_point(&r64(10.0), &r64(20.0));

    assert_eq!(x2, x3);
    assert_eq!(y2, y3);
}

#[test]
fn singular_transform_has_no_inverse() {
    let t = AffineTransform::scale(r64(0.0), r64(0.0));
    assert!(t.inverse().is_none());
    let tiny = AffineTransform::scale(r64(1e-6), r64(1e-6));
    // Determinant 1e-12 lies below the threshold of 1e-10.
    assert!(tiny.inverse().is_none());
    let just_above = AffineTransform::scale(r64(1.0), r64(1.0));
    assert!(just_above.inverse().is_some());
}

#[test]
fn rotation_block_is_standard() {
    let t = AffineTransform::rotation(r64(0.6), r64(0.8));
    let (x, y) = t.transform_point(&r64(1.0), &r64(0.0));
    assert_eq!(x, r64(0.6));
    assert_eq!(y, r64(0.8));
    let (x2, y2) = t.transform_point(&r64(0.0), &r64(1.0));
    assert_eq!(x2, r64(-0.8));
    assert_eq!(y2, r64(0.6));
}

#[test]
fn transform_scenario() {
    let source = GradientProcessor { width: 100, height: 100 };
    let transform = AffineTransform::translation(r64(10.0), r64(10.0)).compose(
        &AffineTransform::scale(r64(0.5), r64(0.5)),
    );
    let transformed = source.transform(transform);
    // The composed map is x' = 0.5 (x + 10); its inverse sends 50 to 90,
    // so the query lands on the source pixel (90, 90).
    let expected = GradientProcessor { width: 100, height: 100 };
    assert_eq!(
        transformed.process_pixel(50, 50).unwrap(),
        expected.process_pixel(90, 90).unwrap()
    );
    assert_eq!(
        transformed.process_pixel(50, 50).unwrap(),
        Some(Gray { value: 229 })
    );
}

#[test]
fn transformed_keeps_source_dimensions() {
    let source = GradientProcessor { width: 30, height: 20 };
    let transformed = source.scale(r64(2.0), r64(2.0));
    assert_eq!(transformed.dimensions(), (30, 20));
}

#[test]
fn negative_source_coordinate_is_absent() {
    let source = GradientProcessor { width: 10, height: 10 };
    // Moving the image right by 5 puts destination (2, 2) at source (-3, -3).
    let transformed = source.translate(r64(5.0), r64(5.0));
    assert_eq!(transformed.process_pixel(2, 2).unwrap(), None);
    assert_eq!(
        transformed.process_pixel(7, 7).unwrap(),
        GradientProcessor { width: 10, height: 10 }.process_pixel(2, 2).unwrap()
    );
}

#[test]
fn singular_transform_yields_absence_everywhere() {
    let source = GradientProcessor { width: 10, height: 10 };
    let transformed = source.scale(r64(0.0), r64(0.0));
    assert_eq!(transformed.process_pixel(0, 0).unwrap(), None);
    assert_eq!(transformed.process_pixel(5, 5).unwrap(), None);
}

#[test]
fn resampling_rounds_to_nearest() {
    let source = flipr::TestProcessor { width: 8, height: 8 };
    // Scaling up by 4: destination 1 maps back to source 0.25, which
    // rounds to 0; destination 2 maps to 0.5, which rounds away from zero
    // to 1.
    let transformed = source.scale(r64(4.0), r64(4.0));
    assert_eq!(transformed.process_pixel(1, 0).unwrap(), Some(Gray { value: 0 }));
    assert_eq!(transformed.process_pixel(2, 0).unwrap(), Some(Gray { value: 1 }));
}

#[test]
fn identity_composes_neutrally() {
    let t = AffineTransform::translation(r64(3.0), r64(4.0));
    let id = AffineTransform::identity();
    assert_eq!(t.compose(&id), t);
    assert_eq!(id.compose(&t), t);
}
