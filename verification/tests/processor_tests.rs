//! Tests for the pixel-production interface and its combinators.

use flipr::Gray;
use flipr::GradientProcessor;
use flipr::ImageProcessor;
use flipr::TestProcessor;

#[test]
fn test_basic_processor() {
    let processor = TestProcessor { width: 10, height: 10 };
    let pixel = processor.process_pixel(5, 5).unwrap();
    assert_eq!(pixel, Some(Gray { value: 10 }));
}

#[test]
fn test_map() {
    let processor = TestProcessor { width: 10, height: 10 };
    let mapped = processor.map(|p: Gray<u8>| Gray { value: p.value * 2 });
    let pixel = mapped.process_pixel(5, 5).unwrap();
    assert_eq!(pixel, Some(Gray { value: 20 }));
}

#[test]
fn test_filter() {
    let processor = TestProcessor { width: 10, height: 10 };
    let filtered = processor.filter(|p: &Gray<u8>| p.value < 10);
    let pixel = filtered.process_pixel(5, 5).unwrap();
    assert_eq!(pixel, None);
    let pixel2 = filtered.process_pixel(2, 2).unwrap();
    assert_eq!(pixel2, Some(Gray { value: 4 }));
}

#[test]
fn combinator_scenario() {
    let source = TestProcessor { width: 10, height: 10 };
    assert_eq!(source.process_pixel(5, 5).unwrap(), Some(Gray { value: 10 }));
    let doubled = TestProcessor { width: 10, height: 10 }.map(|p: Gray<u8>| Gray {
        value: p.value * 2,
    });
    assert_eq!(doubled.process_pixel(5, 5).unwrap(), Some(Gray { value: 20 }));
    let kept_small = TestProcessor { width: 10, height: 10 }
        .map(|p: Gray<u8>| Gray { value: p.value * 2 })
        .filter(|p: &Gray<u8>| p.value < 10);
    assert_eq!(kept_small.process_pixel(5, 5).unwrap(), None);
    assert_eq!(kept_small.process_pixel(2, 2).unwrap(), Some(Gray { value: 8 }));
}

#[test]
fn chain_scenario() {
    let first = GradientProcessor { width: 50, height: 50 };
    let second = GradientProcessor { width: 50, height: 50 };
    let chained = first.chain(second);
    assert_eq!(chained.dimensions(), (100, 50));
    let standalone = GradientProcessor { width: 50, height: 50 };
    assert_eq!(
        chained.process_pixel(25, 25).unwrap(),
        standalone.process_pixel(25, 25).unwrap()
    );
    assert_eq!(
        chained.process_pixel(75, 25).unwrap(),
        standalone.process_pixel(25, 25).unwrap()
    );
}

#[test]
fn out_of_bounds_is_absent() {
    let processor = TestProcessor { width: 10, height: 10 };
    assert_eq!(processor.process_pixel(10, 5).unwrap(), None);
    assert_eq!(processor.process_pixel(5, 10).unwrap(), None);
    assert_eq!(processor.process_pixel(0, 0).unwrap(), Some(Gray { value: 0 }));
}

#[test]
fn chain_gap_is_absent() {
    let tall = TestProcessor { width: 4, height: 8 };
    let short = TestProcessor { width: 4, height: 3 };
    let chained = tall.chain(short);
    assert_eq!(chained.dimensions(), (8, 8));
    // In the gap below the shorter child, the child's own absence comes back.
    assert_eq!(chained.process_pixel(6, 5).unwrap(), None);
    assert_eq!(chained.process_pixel(6, 2).unwrap(), Some(Gray { value: 4 }));
}

#[test]
fn gradient_values_are_scaled() {
    let g = GradientProcessor { width: 100, height: 100 };
    // (50 + 50) * 255 / 200 == 127 by integer division.
    assert_eq!(g.process_pixel(50, 50).unwrap(), Some(Gray { value: 127 }));
    assert_eq!(g.process_pixel(0, 0).unwrap(), Some(Gray { value: 0 }));
    assert_eq!(g.process_pixel(99, 99).unwrap(), Some(Gray { value: 252 }));
}
