//! The exact rational scalar of the coordinate algebra.
//!
//! A `Real` is an arbitrary-precision fraction, constructed only from the
//! bit pattern of a finite IEEE-754 double (construction from the bits of a
//! NaN or an infinity fails), or from the distinguished constants zero and
//! one. Addition, subtraction, multiplication, negation and division are
//! exact; division by an exactly-zero scalar is excluded by precondition
//! rather than reported, as it signals a geometry bug at the call site.

use vstd::prelude::*;

verus! {

use num::BigInt;
use num::rational::Ratio;
use vstd::arithmetic::power2::pow2;
use vstd::arithmetic::power2::lemma_pow2_pos;
use crate::rat::Rat;
use crate::rat::lemma_rat_neg_congr;
use crate::rat::lemma_rat_rounds_to_unique;
use crate::rat::rat_rounds_to;
use crate::rat::rat_add;
use crate::rat::rat_div;
use crate::rat::rat_eq;
use crate::rat::rat_int;
use crate::rat::rat_lt;
use crate::rat::rat_mul;
use crate::rat::rat_neg;
use crate::rat::rat_sub;
use crate::rat::rat_wf;
use crate::bignum::big_from_u64;
use crate::bignum::big_shl;
use crate::bignum::big_to_usize;
use crate::bignum::ratio_num;
use crate::bignum::ratio_round;
use crate::bignum::ratio_to_bigint;
use crate::bignum::ratio_add;
use crate::bignum::ratio_clone;
use crate::bignum::ratio_div;
use crate::bignum::ratio_eq_val;
use crate::bignum::ratio_is_zero;
use crate::bignum::ratio_lt;
use crate::bignum::ratio_mul;
use crate::bignum::ratio_neg;
use crate::bignum::ratio_new;
use crate::bignum::ratio_rat;
use crate::bignum::ratio_sub;

/// An exact rational number.
#[derive(Debug)]
pub struct Real {
    inner: Ratio<BigInt>,
}

/// The exponent field of an IEEE-754 double, from its bits.
pub open spec fn f64_exp_field(bits: u64) -> u64 {
    (bits >> 52) & 0x7ff
}

/// The fraction field of an IEEE-754 double, from its bits.
pub open spec fn f64_frac_field(bits: u64) -> u64 {
    bits & 0xf_ffff_ffff_ffff
}

/// Whether the sign bit is set.
pub open spec fn f64_is_neg(bits: u64) -> bool {
    (bits >> 63) == 1
}

/// A double is finite exactly when its exponent field is not all ones.
pub open spec fn f64_bits_finite(bits: u64) -> bool {
    f64_exp_field(bits) != 0x7ff
}

/// The full significand: the fraction field, with the implicit leading bit
/// added for normal numbers.
pub open spec fn f64_bits_mantissa(bits: u64) -> int {
    if f64_exp_field(bits) == 0 {
        f64_frac_field(bits) as int
    } else {
        f64_frac_field(bits) + 0x10_0000_0000_0000
    }
}

/// The magnitude of a finite double: its significand scaled by a signed
/// power of two.
pub open spec fn f64_bits_mag(bits: u64) -> Rat {
    let e = f64_exp_field(bits);
    let m = f64_bits_mantissa(bits);
    if e >= 1075 {
        Rat { n: m * pow2((e - 1075) as nat), d: 1 }
    } else if e == 0 {
        Rat { n: m, d: pow2(1074) as int }
    } else {
        Rat { n: m, d: pow2((1075 - e) as nat) as int }
    }
}

/// The exact value of a finite double: its magnitude under its sign.
pub open spec fn f64_bits_rat(bits: u64) -> Rat {
    if f64_is_neg(bits) {
        rat_neg(f64_bits_mag(bits))
    } else {
        f64_bits_mag(bits)
    }
}

impl Real {
    /// The fraction this scalar holds.
    pub closed spec fn rat(self) -> Rat {
        ratio_rat(self.inner)
    }

    /// Every scalar holds a fraction with a positive denominator.
    #[verifier::type_invariant]
    pub open spec fn inv(self) -> bool {
        rat_wf(self.rat())
    }

    /// This scalar is exactly zero.
    pub open spec fn spec_is_zero(self) -> bool {
        self.rat().n == 0
    }

    /// The scalar one.
    pub fn one() -> (r: Real)
        ensures
            rat_eq(r.rat(), rat_int(1)),
    {
        let q = ratio_new(big_from_u64(1), big_from_u64(1));
        Real { inner: q }
    }

    /// The scalar zero.
    pub fn zero() -> (r: Real)
        ensures
            rat_eq(r.rat(), rat_int(0)),
    {
        let q = ratio_new(big_from_u64(0), big_from_u64(1));
        Real { inner: q }
    }

    /// Constructs the exact value of the IEEE-754 double with the given
    /// bits; fails exactly when those bits denote a NaN or an infinity.
    pub fn from_bits(bits: u64) -> (r: Option<Real>)
        ensures
            r is Some <==> f64_bits_finite(bits),
            match r {
                Some(v) => rat_eq(v.rat(), f64_bits_rat(bits)),
                None => true,
            },
    {
        let exp_field: u64 = (bits >> 52) & 0x7ff;
        assert(exp_field <= 0x7ff) by (bit_vector)
            requires
                exp_field == (bits >> 52) & 0x7ff,
        ;
        if exp_field == 0x7ff {
            return None;
        }
        let frac: u64 = bits & 0xf_ffff_ffff_ffff;
        assert(frac <= 0xf_ffff_ffff_ffff) by (bit_vector)
            requires
                frac == bits & 0xf_ffff_ffff_ffff,
        ;
        let neg: bool = (bits >> 63) == 1;
        let q: Ratio<BigInt>;
        if exp_field >= 1075 {
            let m: u64 = frac + 0x10_0000_0000_0000;
            let num = big_shl(&big_from_u64(m), (exp_field - 1075) as usize);
            q = ratio_new(num, big_from_u64(1));
        } else {
            let m: u64 = if exp_field == 0 {
                frac
            } else {
                frac + 0x10_0000_0000_0000
            };
            let k: u64 = if exp_field == 0 {
                1074
            } else {
                1075 - exp_field
            };
            proof {
                lemma_pow2_pos((k as usize) as nat);
            }
            let den = big_shl(&big_from_u64(1), k as usize);
            q = ratio_new(big_from_u64(m), den);
        }
        if neg {
            let nq = ratio_neg(&q);
            proof {
                lemma_rat_neg_congr(ratio_rat(q), f64_bits_mag(bits));
            }
            Some(Real { inner: nq })
        } else {
            Some(Real { inner: q })
        }
    }

    /// The exact integer `v` as a scalar.
    pub fn from_u64(v: u64) -> (r: Real)
        ensures
            rat_eq(r.rat(), rat_int(v as int)),
    {
        let q = ratio_new(big_from_u64(v), big_from_u64(1));
        Real { inner: q }
    }

    /// The exact fraction `numer / denom` as a scalar.
    pub fn from_u64_fraction(numer: u64, denom: u64) -> (r: Real)
        requires
            denom > 0,
        ensures
            rat_eq(r.rat(), Rat { n: numer as int, d: denom as int }),
    {
        let q = ratio_new(big_from_u64(numer), big_from_u64(denom));
        Real { inner: q }
    }

    /// The nearest integer to this scalar (half-way cases away from zero)
    /// as a `usize`, or nothing when that integer lies outside the range a
    /// `usize` can hold.
    pub fn round_to_usize(&self) -> (r: Option<usize>)
        ensures
            match r {
                Some(u) => rat_rounds_to(self.rat(), u as int),
                None => forall|k: int| rat_rounds_to(self.rat(), k) ==> !(0 <= k <= usize::MAX),
            },
    {
        proof {
            use_type_invariant(self);
        }
        let rounded = ratio_round(&self.inner);
        let big = ratio_to_bigint(&rounded);
        let o = big_to_usize(&big);
        proof {
            if o is None {
                assert forall|k: int| rat_rounds_to(self.rat(), k) implies !(0 <= k <= usize::MAX) by {
                    lemma_rat_rounds_to_unique(self.rat(), k, ratio_num(rounded));
                }
            }
        }
        o
    }

    /// Exact sum.
    pub fn add(&self, rhs: &Real) -> (r: Real)
        ensures
            rat_eq(r.rat(), rat_add(self.rat(), rhs.rat())),
    {
        proof {
            use_type_invariant(self);
            use_type_invariant(rhs);
        }
        Real { inner: ratio_add(&self.inner, &rhs.inner) }
    }

    /// Exact difference.
    pub fn sub(&self, rhs: &Real) -> (r: Real)
        ensures
            rat_eq(r.rat(), rat_sub(self.rat(), rhs.rat())),
    {
        proof {
            use_type_invariant(self);
            use_type_invariant(rhs);
        }
        Real { inner: ratio_sub(&self.inner, &rhs.inner) }
    }

    /// Exact product.
    pub fn mul(&self, rhs: &Real) -> (r: Real)
        ensures
            rat_eq(r.rat(), rat_mul(self.rat(), rhs.rat())),
    {
        proof {
            use_type_invariant(self);
            use_type_invariant(rhs);
        }
        Real { inner: ratio_mul(&self.inner, &rhs.inner) }
    }

    /// Exact negation.
    pub fn neg(&self) -> (r: Real)
        ensures
            r.rat() == rat_neg(self.rat()),
    {
        proof {
            use_type_invariant(self);
        }
        Real { inner: ratio_neg(&self.inner) }
    }

    /// Exact quotient. Dividing by an exactly-zero scalar is a precondition
    /// violation, not a recoverable error.
    pub fn div(&self, rhs: &Real) -> (r: Real)
        requires
            !rhs.spec_is_zero(),
        ensures
            rat_eq(r.rat(), rat_div(self.rat(), rhs.rat())),
    {
        proof {
            use_type_invariant(self);
            use_type_invariant(rhs);
        }
        Real { inner: ratio_div(&self.inner, &rhs.inner) }
    }

    /// Whether this scalar is exactly zero.
    pub fn is_zero(&self) -> (b: bool)
        ensures
            b == self.spec_is_zero(),
    {
        ratio_is_zero(&self.inner)
    }

    /// Whether this scalar is strictly below `rhs`.
    pub fn lt(&self, rhs: &Real) -> (b: bool)
        ensures
            b == rat_lt(self.rat(), rhs.rat()),
    {
        proof {
            use_type_invariant(self);
            use_type_invariant(rhs);
        }
        ratio_lt(&self.inner, &rhs.inner)
    }

    /// The underlying reduced fraction.
    pub fn as_ratio(&self) -> (r: &Ratio<BigInt>)
        ensures
            ratio_rat(*r) == self.rat(),
    {
        &self.inner
    }

    /// Wraps a fraction with a positive denominator — the form every
    /// fraction built by num's constructors has — as a scalar.
    pub fn from_ratio(q: Ratio<BigInt>) -> (r: Real)
        requires
            rat_wf(ratio_rat(q)),
        ensures
            r.rat() == ratio_rat(q),
    {
        Real { inner: q }
    }
}

impl Clone for Real {
    /// The copy holds the same fraction.
    fn clone(&self) -> (r: Real)
        ensures
            r.rat() == self.rat(),
    {
        proof {
            use_type_invariant(self);
        }
        Real { inner: ratio_clone(&self.inner) }
    }
}

impl PartialEq for Real {
    /// Equality of the exact values.
    fn eq(&self, other: &Real) -> (r: bool) {
        proof {
            use_type_invariant(self);
            use_type_invariant(other);
        }
        ratio_eq_val(&self.inner, &other.inner)
    }
}

impl vstd::std_specs::cmp::PartialEqSpecImpl for Real {
    open spec fn obeys_eq_spec() -> bool {
        true
    }

    open spec fn eq_spec(&self, other: &Real) -> bool {
        rat_eq(self.rat(), other.rat())
    }
}

} // verus!
