//! An absolute point in the plane.
//!
//! A place is not a vector: it is a torsor over `Offset`. Adding an offset
//! moves a place; subtracting two places yields the offset between them.
//! The proof functions here state the torsor laws.

use vstd::prelude::*;

verus! {

use crate::rat::Rat;
use crate::rat::lemma_rat_add_assoc_rel;
use crate::rat::lemma_rat_add_zero_rel;
use crate::rat::lemma_rat_sub_then_add_rel;
use crate::rat::rat_add;
use crate::rat::rat_eq;
use crate::rat::rat_int;
use crate::rat::rat_sub;
use crate::rat::rat_wf;
use crate::offset;
use crate::offset::Offset;
use crate::scalar::Real;
use crate::scalar::f64_bits_finite;
use crate::scalar::f64_bits_rat;

/// An absolute point with exact rational coordinates.
#[derive(Debug)]
pub struct Place {
    x: Real,
    y: Real,
}

/// `r` denotes `p` moved by the offset `a`.
pub open spec fn shifted_of(r: Place, p: Place, a: Offset) -> bool {
    &&& rat_eq(r.x_rat(), rat_add(p.x_rat(), a.dx_rat()))
    &&& rat_eq(r.y_rat(), rat_add(p.y_rat(), a.dy_rat()))
}

/// `r` denotes the offset from `q` to `p`, that is `p - q`.
pub open spec fn diff_of(r: Offset, p: Place, q: Place) -> bool {
    &&& rat_eq(r.dx_rat(), rat_sub(p.x_rat(), q.x_rat()))
    &&& rat_eq(r.dy_rat(), rat_sub(p.y_rat(), q.y_rat()))
}

/// `p` and `q` denote the same point.
pub open spec fn spec_eq(p: Place, q: Place) -> bool {
    rat_eq(p.x_rat(), q.x_rat()) && rat_eq(p.y_rat(), q.y_rat())
}

impl Place {
    /// The fraction the first coordinate holds.
    pub closed spec fn x_rat(self) -> Rat {
        self.x.rat()
    }

    /// The fraction the second coordinate holds.
    pub closed spec fn y_rat(self) -> Rat {
        self.y.rat()
    }

    /// Both coordinates denote well-formed fractions. Every place the
    /// constructors build satisfies this.
    pub open spec fn wf(self) -> bool {
        rat_wf(self.x_rat()) && rat_wf(self.y_rat())
    }

    /// A place with the exact values of the two IEEE-754 doubles given by
    /// their bits; fails exactly when either is not finite.
    pub fn new(x_bits: u64, y_bits: u64) -> (r: Option<Place>)
        ensures
            r is Some <==> f64_bits_finite(x_bits) && f64_bits_finite(y_bits),
            match r {
                Some(p) => p.wf() && rat_eq(p.x_rat(), f64_bits_rat(x_bits)) && rat_eq(
                    p.y_rat(),
                    f64_bits_rat(y_bits),
                ),
                None => true,
            },
    {
        let x = match Real::from_bits(x_bits) {
            Some(v) => v,
            None => {
                return None;
            },
        };
        let y = match Real::from_bits(y_bits) {
            Some(v) => v,
            None => {
                return None;
            },
        };
        proof {
            use_type_invariant(&x);
            use_type_invariant(&y);
        }
        Some(Place { x, y })
    }

    /// The distinguished absolute point at the origin.
    pub fn origin() -> (r: Place)
        ensures
            r.wf(),
            rat_eq(r.x_rat(), rat_int(0)),
            rat_eq(r.y_rat(), rat_int(0)),
    {
        let x = Real::zero();
        let y = Real::zero();
        proof {
            use_type_invariant(&x);
            use_type_invariant(&y);
        }
        Place { x, y }
    }

    /// The first coordinate.
    pub fn x(&self) -> (r: &Real)
        ensures
            r.rat() == self.x_rat(),
    {
        &self.x
    }

    /// The second coordinate.
    pub fn y(&self) -> (r: &Real)
        ensures
            r.rat() == self.y_rat(),
    {
        &self.y
    }

    /// The offset that moves this place onto `other`.
    pub fn offset_to(self, other: Place) -> (r: Offset)
        ensures
            r.wf(),
            diff_of(r, other, self),
    {
        other.sub(self)
    }

    /// The place reached by moving this place by `rhs`.
    pub fn add(&self, rhs: &Offset) -> (r: Place)
        ensures
            r.wf(),
            shifted_of(r, *self, *rhs),
    {
        let x = self.x.add(rhs.dx());
        let y = self.y.add(rhs.dy());
        proof {
            use_type_invariant(&x);
            use_type_invariant(&y);
        }
        Place { x, y }
    }

    /// The offset from `rhs` to this place.
    pub fn sub(self, rhs: Place) -> (r: Offset)
        ensures
            r.wf(),
            diff_of(r, self, rhs),
    {
        let dx = self.x.sub(&rhs.x);
        let dy = self.y.sub(&rhs.y);
        Offset::from_reals(dx, dy)
    }
}

impl Clone for Place {
    /// The copy holds the same point.
    fn clone(&self) -> (r: Place)
        ensures
            r.x_rat() == self.x_rat(),
            r.y_rat() == self.y_rat(),
    {
        Place { x: self.x.clone(), y: self.y.clone() }
    }
}

impl PartialEq for Place {
    /// Equality of the exact coordinate values.
    fn eq(&self, other: &Place) -> (r: bool) {
        self.x == other.x && self.y == other.y
    }
}

impl vstd::std_specs::cmp::PartialEqSpecImpl for Place {
    open spec fn obeys_eq_spec() -> bool {
        true
    }

    open spec fn eq_spec(&self, other: &Place) -> bool {
        spec_eq(*self, *other)
    }
}

/// Torsor law: moving by the zero offset stays put —
/// `p + Offset::zero() == p`.
pub proof fn lemma_shift_zero_identity(p: Place, z: Offset, r: Place)
    requires
        p.wf(),
        z.wf(),
        r.wf(),
        offset::is_zero(z),
        shifted_of(r, p, z),
    ensures
        spec_eq(r, p),
{
    lemma_rat_add_zero_rel(p.x_rat(), z.dx_rat(), r.x_rat());
    lemma_rat_add_zero_rel(p.y_rat(), z.dy_rat(), r.y_rat());
}

/// Torsor law: consecutive moves compose by offset addition —
/// `(p + a) + b == p + (a + b)`.
pub proof fn lemma_shift_associative(
    p: Place,
    a: Offset,
    b: Offset,
    pa: Place,
    pa_b: Place,
    ab: Offset,
    p_ab: Place,
)
    requires
        p.wf(),
        a.wf(),
        b.wf(),
        pa.wf(),
        pa_b.wf(),
        ab.wf(),
        p_ab.wf(),
        shifted_of(pa, p, a),
        shifted_of(pa_b, pa, b),
        offset::sum_of(ab, a, b),
        shifted_of(p_ab, p, ab),
    ensures
        spec_eq(pa_b, p_ab),
{
    lemma_rat_add_assoc_rel(
        p.x_rat(),
        a.dx_rat(),
        b.dx_rat(),
        ab.dx_rat(),
        pa.x_rat(),
        p_ab.x_rat(),
        pa_b.x_rat(),
    );
    lemma_rat_add_assoc_rel(
        p.y_rat(),
        a.dy_rat(),
        b.dy_rat(),
        ab.dy_rat(),
        pa.y_rat(),
        p_ab.y_rat(),
        pa_b.y_rat(),
    );
}

/// Torsor law: moving `p` by the difference `q - p` lands exactly on `q` —
/// `p + (q - p) == q`.
pub proof fn lemma_shift_by_difference(p: Place, q: Place, d: Offset, r: Place)
    requires
        p.wf(),
        q.wf(),
        d.wf(),
        r.wf(),
        diff_of(d, q, p),
        shifted_of(r, p, d),
    ensures
        spec_eq(r, q),
{
    lemma_rat_sub_then_add_rel(p.x_rat(), q.x_rat(), d.dx_rat(), r.x_rat());
    lemma_rat_sub_then_add_rel(p.y_rat(), q.y_rat(), d.dy_rat(), r.y_rat());
}

} // verus!
