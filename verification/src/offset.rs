//! A free vector: the difference of two absolute points.
//!
//! Offsets form an abelian group under addition and carry a scalar action
//! of `Scale` that distributes over both offset addition and scale
//! addition; the proof functions here state those laws for every offset a
//! caller can construct.

use vstd::prelude::*;

verus! {

use crate::rat::Rat;
use crate::rat::lemma_rat_add_assoc_rel;
use crate::rat::lemma_rat_add_comm_rel;
use crate::rat::lemma_rat_add_neg_rel;
use crate::rat::lemma_rat_add_zero_rel;
use crate::rat::lemma_rat_distrib_mult_rel;
use crate::rat::lemma_rat_distrib_sum_rel;
use crate::rat::lemma_rat_mul_assoc_rel;
use crate::rat::lemma_rat_mul_one_rel;
use crate::rat::rat_add;
use crate::rat::rat_eq;
use crate::rat::rat_int;
use crate::rat::rat_mul;
use crate::rat::rat_neg;
use crate::rat::rat_wf;
use crate::scalar::Real;
use crate::scalar::f64_bits_finite;
use crate::scalar::f64_bits_rat;
use crate::scale;
use crate::scale::Scale;

/// A free two-dimensional vector with exact rational components.
#[derive(Debug)]
pub struct Offset {
    dx: Real,
    dy: Real,
}

/// `r` denotes the sum of `a` and `b`.
pub open spec fn sum_of(r: Offset, a: Offset, b: Offset) -> bool {
    &&& rat_eq(r.dx_rat(), rat_add(a.dx_rat(), b.dx_rat()))
    &&& rat_eq(r.dy_rat(), rat_add(a.dy_rat(), b.dy_rat()))
}

/// `r` denotes the negation of `a`.
pub open spec fn neg_of(r: Offset, a: Offset) -> bool {
    &&& rat_eq(r.dx_rat(), rat_neg(a.dx_rat()))
    &&& rat_eq(r.dy_rat(), rat_neg(a.dy_rat()))
}

/// `r` denotes `a` scaled by the multiplier `m`.
pub open spec fn scaled_of(r: Offset, a: Offset, m: Scale) -> bool {
    &&& rat_eq(r.dx_rat(), rat_mul(a.dx_rat(), m.rat()))
    &&& rat_eq(r.dy_rat(), rat_mul(a.dy_rat(), m.rat()))
}

/// `a` denotes the zero vector.
pub open spec fn is_zero(a: Offset) -> bool {
    a.dx_rat().n == 0 && a.dy_rat().n == 0
}

/// `a` and `b` denote the same vector.
pub open spec fn spec_eq(a: Offset, b: Offset) -> bool {
    rat_eq(a.dx_rat(), b.dx_rat()) && rat_eq(a.dy_rat(), b.dy_rat())
}

impl Offset {
    /// The fraction the first component holds.
    pub closed spec fn dx_rat(self) -> Rat {
        self.dx.rat()
    }

    /// The fraction the second component holds.
    pub closed spec fn dy_rat(self) -> Rat {
        self.dy.rat()
    }

    /// Both components denote well-formed fractions. Every offset the
    /// constructors build satisfies this.
    pub open spec fn wf(self) -> bool {
        rat_wf(self.dx_rat()) && rat_wf(self.dy_rat())
    }

    /// The zero vector.
    pub fn zero() -> (r: Offset)
        ensures
            r.wf(),
            is_zero(r),
            rat_eq(r.dx_rat(), rat_int(0)),
            rat_eq(r.dy_rat(), rat_int(0)),
    {
        let dx = Real::zero();
        let dy = Real::zero();
        proof {
            use_type_invariant(&dx);
            use_type_invariant(&dy);
        }
        Offset { dx, dy }
    }

    /// An offset with the exact values of the two IEEE-754 doubles given
    /// by their bits; fails exactly when either is not finite.
    pub fn new(dx_bits: u64, dy_bits: u64) -> (r: Option<Offset>)
        ensures
            r is Some <==> f64_bits_finite(dx_bits) && f64_bits_finite(dy_bits),
            match r {
                Some(o) => o.wf() && rat_eq(o.dx_rat(), f64_bits_rat(dx_bits)) && rat_eq(
                    o.dy_rat(),
                    f64_bits_rat(dy_bits),
                ),
                None => true,
            },
    {
        let dx = match Real::from_bits(dx_bits) {
            Some(v) => v,
            None => {
                return None;
            },
        };
        let dy = match Real::from_bits(dy_bits) {
            Some(v) => v,
            None => {
                return None;
            },
        };
        proof {
            use_type_invariant(&dx);
            use_type_invariant(&dy);
        }
        Some(Offset { dx, dy })
    }

    /// An offset from two exact scalar components.
    pub fn from_reals(dx: Real, dy: Real) -> (r: Offset)
        ensures
            r.wf(),
            r.dx_rat() == dx.rat(),
            r.dy_rat() == dy.rat(),
    {
        proof {
            use_type_invariant(&dx);
            use_type_invariant(&dy);
        }
        Offset { dx, dy }
    }

    /// The first component.
    pub fn dx(&self) -> (r: &Real)
        ensures
            r.rat() == self.dx_rat(),
    {
        &self.dx
    }

    /// The second component.
    pub fn dy(&self) -> (r: &Real)
        ensures
            r.rat() == self.dy_rat(),
    {
        &self.dy
    }

    /// Exact componentwise sum.
    pub fn add(&self, rhs: &Offset) -> (r: Offset)
        ensures
            r.wf(),
            sum_of(r, *self, *rhs),
    {
        let dx = self.dx.add(&rhs.dx);
        let dy = self.dy.add(&rhs.dy);
        proof {
            use_type_invariant(&dx);
            use_type_invariant(&dy);
        }
        Offset { dx, dy }
    }

    /// Exact componentwise negation.
    pub fn neg(&self) -> (r: Offset)
        ensures
            r.wf(),
            neg_of(r, *self),
    {
        let dx = self.dx.neg();
        let dy = self.dy.neg();
        proof {
            use_type_invariant(&dx);
            use_type_invariant(&dy);
        }
        Offset { dx, dy }
    }

    /// Exact scaling of both components by a multiplier.
    pub fn mul(&self, rhs: &Scale) -> (r: Offset)
        ensures
            r.wf(),
            scaled_of(r, *self, *rhs),
    {
        let factor = rhs.factor();
        let dx = self.dx.mul(factor);
        let dy = self.dy.mul(factor);
        proof {
            use_type_invariant(&dx);
            use_type_invariant(&dy);
        }
        Offset { dx, dy }
    }
}

impl Clone for Offset {
    /// The copy holds the same vector.
    fn clone(&self) -> (r: Offset)
        ensures
            r.dx_rat() == self.dx_rat(),
            r.dy_rat() == self.dy_rat(),
    {
        Offset { dx: self.dx.clone(), dy: self.dy.clone() }
    }
}

impl PartialEq for Offset {
    /// Equality of the exact component values.
    fn eq(&self, other: &Offset) -> (r: bool) {
        self.dx == other.dx && self.dy == other.dy
    }
}

impl vstd::std_specs::cmp::PartialEqSpecImpl for Offset {
    open spec fn obeys_eq_spec() -> bool {
        true
    }

    open spec fn eq_spec(&self, other: &Offset) -> bool {
        spec_eq(*self, *other)
    }
}

/// Group law: offset addition is associative — `a + (b + c) == (a + b) + c`
/// for all offsets, whatever representatives the sums hold.
pub proof fn lemma_add_associative(
    a: Offset,
    b: Offset,
    c: Offset,
    bc: Offset,
    ab: Offset,
    a_bc: Offset,
    ab_c: Offset,
)
    requires
        a.wf(),
        b.wf(),
        c.wf(),
        bc.wf(),
        ab.wf(),
        a_bc.wf(),
        ab_c.wf(),
        sum_of(bc, b, c),
        sum_of(a_bc, a, bc),
        sum_of(ab, a, b),
        sum_of(ab_c, ab, c),
    ensures
        spec_eq(a_bc, ab_c),
{
    lemma_rat_add_assoc_rel(
        a.dx_rat(),
        b.dx_rat(),
        c.dx_rat(),
        bc.dx_rat(),
        ab.dx_rat(),
        a_bc.dx_rat(),
        ab_c.dx_rat(),
    );
    lemma_rat_add_assoc_rel(
        a.dy_rat(),
        b.dy_rat(),
        c.dy_rat(),
        bc.dy_rat(),
        ab.dy_rat(),
        a_bc.dy_rat(),
        ab_c.dy_rat(),
    );
}

/// Group law: offset addition is commutative — `a + b == b + a`.
pub proof fn lemma_add_commutative(a: Offset, b: Offset, ab: Offset, ba: Offset)
    requires
        a.wf(),
        b.wf(),
        ab.wf(),
        ba.wf(),
        sum_of(ab, a, b),
        sum_of(ba, b, a),
    ensures
        spec_eq(ab, ba),
{
    lemma_rat_add_comm_rel(a.dx_rat(), b.dx_rat(), ab.dx_rat(), ba.dx_rat());
    lemma_rat_add_comm_rel(a.dy_rat(), b.dy_rat(), ab.dy_rat(), ba.dy_rat());
}

/// Group law: the zero vector is a two-sided additive identity —
/// `zero + a == a == a + zero`.
pub proof fn lemma_add_zero_identity(a: Offset, z: Offset, r: Offset)
    requires
        a.wf(),
        z.wf(),
        r.wf(),
        is_zero(z),
        sum_of(r, a, z) || sum_of(r, z, a),
    ensures
        spec_eq(r, a),
{
    lemma_rat_add_zero_rel(a.dx_rat(), z.dx_rat(), r.dx_rat());
    lemma_rat_add_zero_rel(a.dy_rat(), z.dy_rat(), r.dy_rat());
}

/// Group law: every offset has an additive inverse — `a + (-a) == zero`.
pub proof fn lemma_add_inverse(a: Offset, na: Offset, r: Offset)
    requires
        a.wf(),
        na.wf(),
        r.wf(),
        neg_of(na, a),
        sum_of(r, a, na),
    ensures
        is_zero(r),
{
    lemma_rat_add_neg_rel(a.dx_rat(), na.dx_rat(), r.dx_rat());
    lemma_rat_add_neg_rel(a.dy_rat(), na.dy_rat(), r.dy_rat());
    assert(r.dx_rat().n * 1 == 0 * r.dx_rat().d);
    assert(r.dy_rat().n * 1 == 0 * r.dy_rat().d);
}

/// Action law: scaling a sum of offsets scales each summand —
/// `(a + b) * m == a * m + b * m`.
pub proof fn lemma_scale_distributes_over_offset_sum(
    a: Offset,
    b: Offset,
    m: Scale,
    ab: Offset,
    abm: Offset,
    am: Offset,
    bm: Offset,
    am_bm: Offset,
)
    requires
        a.wf(),
        b.wf(),
        m.wf(),
        ab.wf(),
        abm.wf(),
        am.wf(),
        bm.wf(),
        am_bm.wf(),
        sum_of(ab, a, b),
        scaled_of(abm, ab, m),
        scaled_of(am, a, m),
        scaled_of(bm, b, m),
        sum_of(am_bm, am, bm),
    ensures
        spec_eq(abm, am_bm),
{
    lemma_rat_distrib_sum_rel(
        a.dx_rat(),
        b.dx_rat(),
        m.rat(),
        ab.dx_rat(),
        abm.dx_rat(),
        am.dx_rat(),
        bm.dx_rat(),
        am_bm.dx_rat(),
    );
    lemma_rat_distrib_sum_rel(
        a.dy_rat(),
        b.dy_rat(),
        m.rat(),
        ab.dy_rat(),
        abm.dy_rat(),
        am.dy_rat(),
        bm.dy_rat(),
        am_bm.dy_rat(),
    );
}

/// Action law: scaling by a sum of multipliers adds the two scalings —
/// `a * (m + n) == a * m + a * n`.
pub proof fn lemma_scale_distributes_over_scale_sum(
    a: Offset,
    m: Scale,
    n: Scale,
    mn: Scale,
    a_mn: Offset,
    am: Offset,
    an: Offset,
    am_an: Offset,
)
    requires
        a.wf(),
        m.wf(),
        n.wf(),
        mn.wf(),
        a_mn.wf(),
        am.wf(),
        an.wf(),
        am_an.wf(),
        scale::sum_of(mn, m, n),
        scaled_of(a_mn, a, mn),
        scaled_of(am, a, m),
        scaled_of(an, a, n),
        sum_of(am_an, am, an),
    ensures
        spec_eq(a_mn, am_an),
{
    lemma_rat_distrib_mult_rel(
        a.dx_rat(),
        m.rat(),
        n.rat(),
        mn.rat(),
        a_mn.dx_rat(),
        am.dx_rat(),
        an.dx_rat(),
        am_an.dx_rat(),
    );
    lemma_rat_distrib_mult_rel(
        a.dy_rat(),
        m.rat(),
        n.rat(),
        mn.rat(),
        a_mn.dy_rat(),
        am.dy_rat(),
        an.dy_rat(),
        am_an.dy_rat(),
    );
}

/// Action law: the multiplier one is a right identity — `a * one == a`.
pub proof fn lemma_scale_one_identity(a: Offset, o: Scale, r: Offset)
    requires
        a.wf(),
        o.wf(),
        r.wf(),
        rat_eq(o.rat(), rat_int(1)),
        scaled_of(r, a, o),
    ensures
        spec_eq(r, a),
{
    assert(o.rat().n == o.rat().d);
    lemma_rat_mul_one_rel(a.dx_rat(), o.rat(), r.dx_rat());
    lemma_rat_mul_one_rel(a.dy_rat(), o.rat(), r.dy_rat());
}

/// Action law: scaling twice multiplies the multipliers —
/// `(a * m) * n == a * (m * n)`.
pub proof fn lemma_scale_action_associative(
    a: Offset,
    m: Scale,
    n: Scale,
    am: Offset,
    am_n: Offset,
    mn: Scale,
    a_mn: Offset,
)
    requires
        a.wf(),
        m.wf(),
        n.wf(),
        am.wf(),
        am_n.wf(),
        mn.wf(),
        a_mn.wf(),
        scaled_of(am, a, m),
        scaled_of(am_n, am, n),
        scale::product_of(mn, m, n),
        scaled_of(a_mn, a, mn),
    ensures
        spec_eq(am_n, a_mn),
{
    lemma_rat_mul_assoc_rel(
        a.dx_rat(),
        m.rat(),
        n.rat(),
        am.dx_rat(),
        am_n.dx_rat(),
        mn.rat(),
        a_mn.dx_rat(),
    );
    lemma_rat_mul_assoc_rel(
        a.dy_rat(),
        m.rat(),
        n.rat(),
        am.dy_rat(),
        am_n.dy_rat(),
        mn.rat(),
        a_mn.dy_rat(),
    );
}

} // verus!
