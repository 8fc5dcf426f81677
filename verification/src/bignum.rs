//! The bridge to num's arbitrary-precision integers and rationals.
//!
//! `BigInt` and `Ratio<BigInt>` are opaque to the verifier, so this module
//! names the values they hold — `big_val`, `ratio_num`, `ratio_den` — and
//! gives each operation the coordinate algebra calls a wrapper whose
//! contract states, over those names, what num's source shows.

use vstd::prelude::*;

verus! {

use num::BigInt;
use num::ToPrimitive;
use num::Zero;
use num::rational::Ratio;
use vstd::arithmetic::power2::pow2;
use crate::rat::Rat;
use crate::rat::rat_add;
use crate::rat::rat_div;
use crate::rat::rat_eq;
use crate::rat::rat_lt;
use crate::rat::rat_mul;
use crate::rat::rat_rounds_to;
use crate::rat::rat_sub;
use crate::rat::rat_wf;

#[verifier::external_type_specification]
#[verifier::external_body]
pub struct ExBigInt(BigInt);

#[verifier::external_type_specification]
#[verifier::external_body]
#[verifier::reject_recursive_types(T)]
pub struct ExRatio<T>(Ratio<T>);

/// The integer a `BigInt` holds.
pub uninterp spec fn big_val(x: BigInt) -> int;

/// The numerator a `Ratio<BigInt>` holds.
pub uninterp spec fn ratio_num(x: Ratio<BigInt>) -> int;

/// The denominator a `Ratio<BigInt>` holds.
pub uninterp spec fn ratio_den(x: Ratio<BigInt>) -> int;

/// The fraction a `Ratio<BigInt>` holds, as a specification-level pair.
pub open spec fn ratio_rat(x: Ratio<BigInt>) -> Rat {
    Rat { n: ratio_num(x), d: ratio_den(x) }
}

/// Relies on `BigInt::from(u64)`: the exact integer value.
#[verifier::external_body]
pub(crate) fn big_from_u64(x: u64) -> (r: BigInt)
    ensures
        big_val(r) == x,
{
    BigInt::from(x)
}

/// Relies on `<<` for `BigInt`: a left shift by `k` multiplies by two `k`
/// times.
#[verifier::external_body]
pub(crate) fn big_shl(x: &BigInt, k: usize) -> (r: BigInt)
    ensures
        big_val(r) == big_val(*x) * pow2(k as nat),
{
    x << k
}

/// Relies on `ToPrimitive::to_usize` for `BigInt`: the value, exactly when
/// it fits in a `usize`.
#[verifier::external_body]
pub(crate) fn big_to_usize(x: &BigInt) -> (r: Option<usize>)
    ensures
        r is Some <==> 0 <= big_val(*x) <= usize::MAX,
        r is Some ==> r->0 == big_val(*x),
{
    x.to_usize()
}

/// Relies on `Ratio::new`: builds the fraction `n / d` in reduced form with
/// a positive denominator; it panics only when `d` is zero.
#[verifier::external_body]
pub(crate) fn ratio_new(n: BigInt, d: BigInt) -> (r: Ratio<BigInt>)
    requires
        big_val(d) > 0,
    ensures
        rat_wf(ratio_rat(r)),
        rat_eq(ratio_rat(r), Rat { n: big_val(n), d: big_val(d) }),
{
    Ratio::new(n, d)
}

/// Relies on `Clone` for `Ratio<BigInt>`: the copy holds the same fraction.
#[verifier::external_body]
pub(crate) fn ratio_clone(a: &Ratio<BigInt>) -> (r: Ratio<BigInt>)
    ensures
        ratio_num(r) == ratio_num(*a),
        ratio_den(r) == ratio_den(*a),
{
    a.clone()
}

/// Relies on `+` for `Ratio<BigInt>`: the exact sum, in reduced form with a
/// positive denominator.
#[verifier::external_body]
pub(crate) fn ratio_add(a: &Ratio<BigInt>, b: &Ratio<BigInt>) -> (r: Ratio<BigInt>)
    requires
        ratio_den(*a) > 0,
        ratio_den(*b) > 0,
    ensures
        rat_wf(ratio_rat(r)),
        rat_eq(ratio_rat(r), rat_add(ratio_rat(*a), ratio_rat(*b))),
{
    a + b
}

/// Relies on `-` for `Ratio<BigInt>`: the exact difference, in reduced form
/// with a positive denominator.
#[verifier::external_body]
pub(crate) fn ratio_sub(a: &Ratio<BigInt>, b: &Ratio<BigInt>) -> (r: Ratio<BigInt>)
    requires
        ratio_den(*a) > 0,
        ratio_den(*b) > 0,
    ensures
        rat_wf(ratio_rat(r)),
        rat_eq(ratio_rat(r), rat_sub(ratio_rat(*a), ratio_rat(*b))),
{
    a - b
}

/// Relies on `*` for `Ratio<BigInt>`: the exact product, in reduced form
/// with a positive denominator.
#[verifier::external_body]
pub(crate) fn ratio_mul(a: &Ratio<BigInt>, b: &Ratio<BigInt>) -> (r: Ratio<BigInt>)
    requires
        ratio_den(*a) > 0,
        ratio_den(*b) > 0,
    ensures
        rat_wf(ratio_rat(r)),
        rat_eq(ratio_rat(r), rat_mul(ratio_rat(*a), ratio_rat(*b))),
{
    a * b
}

/// Relies on `/` for `Ratio<BigInt>`: the exact quotient, in reduced form
/// with a positive denominator; it panics only on a zero divisor.
#[verifier::external_body]
pub(crate) fn ratio_div(a: &Ratio<BigInt>, b: &Ratio<BigInt>) -> (r: Ratio<BigInt>)
    requires
        ratio_den(*a) > 0,
        ratio_den(*b) > 0,
        ratio_num(*b) != 0,
    ensures
        rat_wf(ratio_rat(r)),
        rat_eq(ratio_rat(r), rat_div(ratio_rat(*a), ratio_rat(*b))),
{
    a / b
}

/// Relies on negation for `Ratio<BigInt>`: it negates the numerator and
/// keeps the denominator.
#[verifier::external_body]
pub(crate) fn ratio_neg(a: &Ratio<BigInt>) -> (r: Ratio<BigInt>)
    ensures
        ratio_num(r) == -ratio_num(*a),
        ratio_den(r) == ratio_den(*a),
{
    -a.clone()
}

/// Relies on `==` for `Ratio<BigInt>`, which compares fractions by value.
#[verifier::external_body]
pub(crate) fn ratio_eq_val(a: &Ratio<BigInt>, b: &Ratio<BigInt>) -> (r: bool)
    requires
        ratio_den(*a) > 0,
        ratio_den(*b) > 0,
    ensures
        r == rat_eq(ratio_rat(*a), ratio_rat(*b)),
{
    a == b
}

/// Relies on `<` for `Ratio<BigInt>` (its `Ord`), which compares fractions
/// by value.
#[verifier::external_body]
pub(crate) fn ratio_lt(a: &Ratio<BigInt>, b: &Ratio<BigInt>) -> (r: bool)
    requires
        ratio_den(*a) > 0,
        ratio_den(*b) > 0,
    ensures
        r == rat_lt(ratio_rat(*a), ratio_rat(*b)),
{
    a < b
}

/// Relies on `Zero::is_zero` for `Ratio<BigInt>`, which tests the numerator.
#[verifier::external_body]
pub(crate) fn ratio_is_zero(a: &Ratio<BigInt>) -> (r: bool)
    ensures
        r == (ratio_num(*a) == 0),
{
    a.is_zero()
}

/// Relies on `Ratio::round`: the nearest integer, half-way cases away from
/// zero, returned with denominator one.
#[verifier::external_body]
pub(crate) fn ratio_round(a: &Ratio<BigInt>) -> (r: Ratio<BigInt>)
    requires
        ratio_den(*a) > 0,
    ensures
        ratio_den(r) == 1,
        rat_rounds_to(ratio_rat(*a), ratio_num(r)),
{
    a.round()
}

/// Relies on `Ratio::to_integer`, which for a ratio with denominator one
/// returns the numerator.
#[verifier::external_body]
pub(crate) fn ratio_to_bigint(a: &Ratio<BigInt>) -> (r: BigInt)
    requires
        ratio_den(*a) == 1,
    ensures
        big_val(r) == ratio_num(*a),
{
    a.to_integer()
}

} // verus!
