//! A scalar multiplier acting on offsets.

use vstd::prelude::*;

verus! {

use crate::rat::Rat;
use crate::rat::lemma_rat_add_assoc_rel;
use crate::rat::lemma_rat_add_comm_rel;
use crate::rat::lemma_rat_add_neg_rel;
use crate::rat::lemma_rat_add_zero_rel;
use crate::rat::lemma_rat_distrib_mult_rel;
use crate::rat::lemma_rat_mul_assoc_rel;
use crate::rat::lemma_rat_mul_comm_rel;
use crate::rat::lemma_rat_mul_one_rel;
use crate::rat::rat_add;
use crate::rat::rat_eq;
use crate::rat::rat_int;
use crate::rat::rat_mul;
use crate::rat::rat_neg;
use crate::rat::rat_wf;
use crate::scalar::Real;
use crate::scalar::f64_bits_finite;
use crate::scalar::f64_bits_rat;

/// A multiplier for offsets: a single exact rational scalar.
#[derive(Debug)]
pub struct Scale(Real);

/// `r` denotes the sum of `m` and `n`.
pub open spec fn sum_of(r: Scale, m: Scale, n: Scale) -> bool {
    rat_eq(r.rat(), rat_add(m.rat(), n.rat()))
}

/// `r` denotes the product of `m` and `n`.
pub open spec fn product_of(r: Scale, m: Scale, n: Scale) -> bool {
    rat_eq(r.rat(), rat_mul(m.rat(), n.rat()))
}

/// `m` and `n` denote the same multiplier.
pub open spec fn spec_eq(m: Scale, n: Scale) -> bool {
    rat_eq(m.rat(), n.rat())
}

impl Scale {
    /// The fraction this multiplier holds.
    pub closed spec fn rat(self) -> Rat {
        self.0.rat()
    }

    /// The multiplier denotes a well-formed fraction. Every multiplier the
    /// constructors build satisfies this.
    pub open spec fn wf(self) -> bool {
        rat_wf(self.rat())
    }

    /// The multiplicative identity.
    pub fn one() -> (r: Scale)
        ensures
            r.wf(),
            rat_eq(r.rat(), rat_int(1)),
    {
        let v = Real::one();
        proof {
            use_type_invariant(&v);
        }
        Scale(v)
    }

    /// The additive identity.
    pub fn zero() -> (r: Scale)
        ensures
            r.wf(),
            rat_eq(r.rat(), rat_int(0)),
    {
        let v = Real::zero();
        proof {
            use_type_invariant(&v);
        }
        Scale(v)
    }

    /// A multiplier with the exact value of the IEEE-754 double with the
    /// given bits; fails exactly when those bits are not finite.
    pub fn new(bits: u64) -> (r: Option<Scale>)
        ensures
            r is Some <==> f64_bits_finite(bits),
            match r {
                Some(s) => s.wf() && rat_eq(s.rat(), f64_bits_rat(bits)),
                None => true,
            },
    {
        match Real::from_bits(bits) {
            Some(v) => {
                proof {
                    use_type_invariant(&v);
                }
                Some(Scale(v))
            },
            None => None,
        }
    }

    /// Wraps an exact scalar as a multiplier.
    pub fn from_real(v: Real) -> (r: Scale)
        ensures
            r.wf(),
            r.rat() == v.rat(),
    {
        proof {
            use_type_invariant(&v);
        }
        Scale(v)
    }

    /// The scalar this multiplier holds.
    pub fn factor(&self) -> (r: &Real)
        ensures
            r.rat() == self.rat(),
    {
        &self.0
    }

    /// Exact sum of multipliers.
    pub fn add(&self, rhs: &Scale) -> (r: Scale)
        ensures
            r.wf(),
            sum_of(r, *self, *rhs),
    {
        let v = self.0.add(&rhs.0);
        proof {
            use_type_invariant(&v);
        }
        Scale(v)
    }

    /// Exact product of multipliers.
    pub fn mul(&self, rhs: &Scale) -> (r: Scale)
        ensures
            r.wf(),
            product_of(r, *self, *rhs),
    {
        let v = self.0.mul(&rhs.0);
        proof {
            use_type_invariant(&v);
        }
        Scale(v)
    }

    /// Exact negation.
    pub fn neg(&self) -> (r: Scale)
        ensures
            r.wf(),
            r.rat() == rat_neg(self.rat()),
    {
        let v = self.0.neg();
        proof {
            use_type_invariant(&v);
        }
        Scale(v)
    }
}

impl Clone for Scale {
    /// The copy holds the same multiplier.
    fn clone(&self) -> (r: Scale)
        ensures
            r.rat() == self.rat(),
    {
        Scale(self.0.clone())
    }
}

impl PartialEq for Scale {
    /// Equality of the exact values.
    fn eq(&self, other: &Scale) -> (r: bool) {
        self.0 == other.0
    }
}

impl vstd::std_specs::cmp::PartialEqSpecImpl for Scale {
    open spec fn obeys_eq_spec() -> bool {
        true
    }

    open spec fn eq_spec(&self, other: &Scale) -> bool {
        spec_eq(*self, *other)
    }
}


/// Ring law: multiplier addition is associative —
/// `m + (n + o) == (m + n) + o`.
pub proof fn lemma_add_associative(
    m: Scale,
    n: Scale,
    o: Scale,
    no: Scale,
    mn: Scale,
    m_no: Scale,
    mn_o: Scale,
)
    requires
        m.wf(),
        n.wf(),
        o.wf(),
        no.wf(),
        mn.wf(),
        m_no.wf(),
        mn_o.wf(),
        sum_of(no, n, o),
        sum_of(m_no, m, no),
        sum_of(mn, m, n),
        sum_of(mn_o, mn, o),
    ensures
        spec_eq(m_no, mn_o),
{
    lemma_rat_add_assoc_rel(m.rat(), n.rat(), o.rat(), no.rat(), mn.rat(), m_no.rat(), mn_o.rat());
}

/// Ring law: multiplier addition is commutative — `m + n == n + m`.
pub proof fn lemma_add_commutative(m: Scale, n: Scale, mn: Scale, nm: Scale)
    requires
        m.wf(),
        n.wf(),
        mn.wf(),
        nm.wf(),
        sum_of(mn, m, n),
        sum_of(nm, n, m),
    ensures
        spec_eq(mn, nm),
{
    lemma_rat_add_comm_rel(m.rat(), n.rat(), mn.rat(), nm.rat());
}

/// Ring law: the zero multiplier is a two-sided additive identity.
pub proof fn lemma_add_zero_identity(m: Scale, z: Scale, r: Scale)
    requires
        m.wf(),
        z.wf(),
        r.wf(),
        z.rat().n == 0,
        sum_of(r, m, z) || sum_of(r, z, m),
    ensures
        spec_eq(r, m),
{
    lemma_rat_add_zero_rel(m.rat(), z.rat(), r.rat());
}

/// Ring law: every multiplier has an additive inverse — `m + (-m) == zero`.
pub proof fn lemma_add_inverse(m: Scale, nm: Scale, r: Scale)
    requires
        m.wf(),
        nm.wf(),
        r.wf(),
        nm.rat() == rat_neg(m.rat()),
        sum_of(r, m, nm),
    ensures
        r.rat().n == 0,
{
    lemma_rat_add_neg_rel(m.rat(), nm.rat(), r.rat());
    assert(r.rat().n * 1 == 0 * r.rat().d);
}

/// Ring law: multiplier multiplication is associative —
/// `(m * n) * o == m * (n * o)`.
pub proof fn lemma_mul_associative(
    m: Scale,
    n: Scale,
    o: Scale,
    mn: Scale,
    mn_o: Scale,
    no: Scale,
    m_no: Scale,
)
    requires
        m.wf(),
        n.wf(),
        o.wf(),
        mn.wf(),
        mn_o.wf(),
        no.wf(),
        m_no.wf(),
        product_of(mn, m, n),
        product_of(mn_o, mn, o),
        product_of(no, n, o),
        product_of(m_no, m, no),
    ensures
        spec_eq(mn_o, m_no),
{
    lemma_rat_mul_assoc_rel(m.rat(), n.rat(), o.rat(), mn.rat(), mn_o.rat(), no.rat(), m_no.rat());
}

/// Ring law: multiplier multiplication is commutative — `m * n == n * m`.
pub proof fn lemma_mul_commutative(m: Scale, n: Scale, mn: Scale, nm: Scale)
    requires
        m.wf(),
        n.wf(),
        mn.wf(),
        nm.wf(),
        product_of(mn, m, n),
        product_of(nm, n, m),
    ensures
        spec_eq(mn, nm),
{
    lemma_rat_mul_comm_rel(m.rat(), n.rat(), mn.rat(), nm.rat());
}

/// Ring law: the multiplier one is a multiplicative identity —
/// `m * one == m`.
pub proof fn lemma_mul_one_identity(m: Scale, o: Scale, r: Scale)
    requires
        m.wf(),
        o.wf(),
        r.wf(),
        rat_eq(o.rat(), rat_int(1)),
        product_of(r, m, o),
    ensures
        spec_eq(r, m),
{
    assert(o.rat().n == o.rat().d);
    lemma_rat_mul_one_rel(m.rat(), o.rat(), r.rat());
}

/// Ring law: multiplication distributes over addition —
/// `m * (n + o) == m * n + m * o`.
pub proof fn lemma_mul_distributes_over_add(
    m: Scale,
    n: Scale,
    o: Scale,
    no: Scale,
    m_no: Scale,
    mn: Scale,
    mo: Scale,
    mn_mo: Scale,
)
    requires
        m.wf(),
        n.wf(),
        o.wf(),
        no.wf(),
        m_no.wf(),
        mn.wf(),
        mo.wf(),
        mn_mo.wf(),
        sum_of(no, n, o),
        product_of(m_no, m, no),
        product_of(mn, m, n),
        product_of(mo, m, o),
        sum_of(mn_mo, mn, mo),
    ensures
        spec_eq(m_no, mn_mo),
{
    lemma_rat_distrib_mult_rel(
        m.rat(),
        n.rat(),
        o.rat(),
        no.rat(),
        m_no.rat(),
        mn.rat(),
        mo.rat(),
        mn_mo.rat(),
    );
}

} // verus!
