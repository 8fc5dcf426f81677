//! Tests for the exact coordinate algebra: scalars, multipliers, offsets
//! and places.

use flipr::Offset;
use flipr::Place;
use flipr::Real;
use flipr::Scale;
use num::ToPrimitive;

fn num_of(v: f64) -> Real {
    Real::from_bits(v.to_bits()).unwrap()
}

fn off(dx: f64, dy: f64) -> Offset {
    Offset::new(dx.to_bits(), dy.to_bits()).unwrap()
}

fn scl(v: f64) -> Scale {
    Scale::new(v.to_bits()).unwrap()
}

fn plc(x: f64, y: f64) -> Place {
    Place::new(x.to_bits(), y.to_bits()).unwrap()
}

#[test]
fn finite_floats_round_trip() {
    for v in [0.0f64, 0.5, -3.75, 1.0e100, -2.2250738585072014e-308, 5.0e-324, 1.25e-300] {
        let r = Real::from_bits(v.to_bits()).unwrap();
        assert_eq!(r.as_ratio().to_f64(), Some(v));
    }
}

#[test]
fn non_finite_floats_are_rejected() {
    assert!(Real::from_bits(f64::NAN.to_bits()).is_none());
    assert!(Real::from_bits(f64::INFINITY.to_bits()).is_none());
    assert!(Real::from_bits(f64::NEG_INFINITY.to_bits()).is_none());
}

#[test]
fn real_arithmetic_is_exact() {
    let a = num_of(1.5);
    let b = num_of(2.75);
    assert_eq!(a.add(&b), num_of(4.25));
    assert_eq!(a.sub(&b), num_of(-1.25));
    assert_eq!(a.mul(&b), num_of(4.125));
    assert_eq!(num_of(5.0).div(&num_of(2.0)), num_of(2.5));
    assert_eq!(a.neg(), num_of(-1.5));
    assert!(num_of(1.0).lt(&num_of(1.5)));
    assert!(!num_of(1.5).lt(&num_of(1.0)));
    assert!(Real::zero().is_zero());
    assert!(!Real::one().is_zero());
}

#[test]
fn tenth_is_not_binary_representable_but_exact_here() {
    // The scalars hold exactly the values the doubles denote, and add
    // them without rounding: the sum is the exact rational
    // 10808639105689191 / 2^55, which is neither the double 0.3 nor the
    // rounded double sum.
    let sum = num_of(0.1).add(&num_of(0.2));
    assert_ne!(sum, num_of(0.3));
    assert_ne!(sum, num_of(0.1 + 0.2));
    assert_eq!(sum, Real::from_u64_fraction(10808639105689191, 36028797018963968));
}

#[test]
fn rounding_is_nearest_away_from_zero() {
    assert_eq!(num_of(2.4).round_to_usize(), Some(2));
    assert_eq!(num_of(2.5).round_to_usize(), Some(3));
    assert_eq!(num_of(0.5).round_to_usize(), Some(1));
    assert_eq!(num_of(0.4).round_to_usize(), Some(0));
    // -0.5 rounds away from zero to -1, which no usize holds.
    assert_eq!(num_of(-0.5).round_to_usize(), None);
    assert_eq!(num_of(-0.4).round_to_usize(), Some(0));
    assert_eq!(num_of(1.0e30).round_to_usize(), None);
}

#[test]
fn fraction_constructor_is_exact() {
    let third = Real::from_u64_fraction(1, 3);
    let one = third.add(&third).add(&third);
    assert_eq!(one, Real::one());
    assert_eq!(Real::from_u64(7), Real::from_u64_fraction(14, 2));
}

#[test]
fn offset_group_laws_on_samples() {
    let a = off(1.5, -2.25);
    let b = off(0.1, 0.2);
    let c = off(-7.75, 3.5);
    assert_eq!(a.add(&b.add(&c)), a.add(&b).add(&c));
    assert_eq!(a.add(&b), b.add(&a));
    assert_eq!(Offset::zero().add(&a), a);
    assert_eq!(a.add(&Offset::zero()), a);
    assert_eq!(a.add(&a.neg()), Offset::zero());
}

#[test]
fn scalar_action_laws_on_samples() {
    let a = off(1.5, -2.25);
    let b = off(0.1, 0.2);
    let m = scl(3.5);
    let n = scl(-0.25);
    assert_eq!(a.add(&b).mul(&m), a.mul(&m).add(&b.mul(&m)));
    assert_eq!(a.mul(&m.add(&n)), a.mul(&m).add(&a.mul(&n)));
    assert_eq!(a.mul(&Scale::one()), a);
    assert_eq!(a.mul(&m).mul(&n), a.mul(&m.mul(&n)));
}

#[test]
fn scale_ring_operations() {
    let m = scl(2.5);
    let n = scl(4.0);
    assert_eq!(m.mul(&n), scl(10.0));
    assert_eq!(m.add(&n), scl(6.5));
    assert_eq!(m.neg(), scl(-2.5));
    assert_eq!(m.mul(&Scale::one()), m);
    assert_eq!(m.add(&Scale::zero()), m);
}

#[test]
fn place_torsor_laws_on_samples() {
    let p = plc(2.0, -3.5);
    let q = plc(-0.25, 7.75);
    let a = off(1.5, -2.25);
    let b = off(0.1, 0.2);
    assert_eq!(p.add(&Offset::zero()), p);
    assert_eq!(p.add(&a).add(&b), p.add(&a.add(&b)));
    let d = q.clone().sub(p.clone());
    assert_eq!(p.add(&d), q);
    assert_eq!(p.clone().offset_to(q.clone()), q.sub(p));
}

#[test]
fn origin_is_zero_coordinates() {
    let o = Place::origin();
    assert_eq!(o, plc(0.0, 0.0));
    assert_eq!(o.x(), &Real::zero());
    assert_eq!(o.y(), &Real::zero());
}

#[test]
fn offset_construction_rejects_non_finite() {
    assert!(Offset::new(f64::NAN.to_bits(), (1.0f64).to_bits()).is_none());
    assert!(Offset::new((1.0f64).to_bits(), f64::INFINITY.to_bits()).is_none());
    assert!(Place::new(f64::NAN.to_bits(), (1.0f64).to_bits()).is_none());
    assert!(Scale::new(f64::NEG_INFINITY.to_bits()).is_none());
    assert!(Offset::new((1.0f64).to_bits(), (2.0f64).to_bits()).is_some());
}

#[test]
fn offset_components_are_kept() {
    let a = off(1.5, -2.5);
    assert_eq!(a.dx(), &num_of(1.5));
    assert_eq!(a.dy(), &num_of(-2.5));
    let via_reals = Offset::from_reals(num_of(1.5), num_of(-2.5));
    assert_eq!(a, via_reals);
}
