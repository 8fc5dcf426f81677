//! Affine transformations of the plane, and the combinator that resamples
//! a pixel source through one.
//!
//! A transform holds six exact rational coefficients encoding
//! `x' = a·x + b·y + tx`, `y' = c·x + d·y + ty`. Composition is
//! associative but not commutative; inversion exists exactly when the
//! determinant is at least the fixed epsilon in magnitude.

use vstd::prelude::*;

verus! {

use crate::rat::Rat;
use crate::rat::lemma_rat_add_wf;
use crate::rat::lemma_rat_add_rel2;
use crate::rat::lemma_rat_abs_congr;
use crate::rat::lemma_rat_add_comm;
use crate::rat::lemma_rat_add_congr;
use crate::rat::lemma_rat_mul_congr;
use crate::rat::lemma_rat_add_assoc;
use crate::rat::lemma_rat_add_exchange;
use crate::rat::lemma_rat_add_zero;
use crate::rat::lemma_rat_mul_assoc;
use crate::rat::lemma_rat_mul_distrib_sum;
use crate::rat::lemma_rat_mul_one;
use crate::rat::lemma_rat_mul_linear;
use crate::rat::lemma_rat_div_rel2;
use crate::rat::lemma_rat_div_wf;
use crate::rat::lemma_rat_eq_trans;
use crate::rat::lemma_rat_lt_congr;
use crate::rat::lemma_rat_mul_wf;
use crate::rat::lemma_rat_sub_rel2;
use crate::rat::rat_abs;
use crate::rat::rat_add;
use crate::rat::rat_div;
use crate::rat::rat_eq;
use crate::rat::rat_int;
use crate::rat::rat_lt;
use crate::rat::rat_mul;
use crate::rat::rat_neg;
use crate::rat::rat_sub;
use crate::rat::rat_wf;
use crate::scalar::Real;
use crate::rat::lemma_rat_rounds_to_congr;
use crate::rat::lemma_rat_rounds_to_unique;
use crate::rat::rat_rounds_to;
use crate::processor::ImageProcessor;

/// A 2-D affine transformation with exact rational coefficients.
#[derive(Debug)]
pub struct AffineTransform {
    pub a: Real,
    pub b: Real,
    pub c: Real,
    pub d: Real,
    pub tx: Real,
    pub ty: Real,
}

/// The six coefficients as specification-level fractions.
pub ghost struct AffineRats {
    pub a: Rat,
    pub b: Rat,
    pub c: Rat,
    pub d: Rat,
    pub tx: Rat,
    pub ty: Rat,
}

/// All six coefficients are well formed.
pub open spec fn rats_wf(t: AffineRats) -> bool {
    rat_wf(t.a) && rat_wf(t.b) && rat_wf(t.c) && rat_wf(t.d) && rat_wf(t.tx) && rat_wf(t.ty)
}

/// The two matrices have equal coefficients.
pub open spec fn rats_eq(t: AffineRats, u: AffineRats) -> bool {
    rat_eq(t.a, u.a) && rat_eq(t.b, u.b) && rat_eq(t.c, u.c) && rat_eq(t.d, u.d) && rat_eq(
        t.tx,
        u.tx,
    ) && rat_eq(t.ty, u.ty)
}

/// The first coordinate of the matrix applied to `(x, y)`.
pub open spec fn apply_x(t: AffineRats, x: Rat, y: Rat) -> Rat {
    rat_add(rat_add(rat_mul(t.a, x), rat_mul(t.b, y)), t.tx)
}

/// The second coordinate of the matrix applied to `(x, y)`.
pub open spec fn apply_y(t: AffineRats, x: Rat, y: Rat) -> Rat {
    rat_add(rat_add(rat_mul(t.c, x), rat_mul(t.d, y)), t.ty)
}

/// The determinant `a·d − b·c` of the linear block.
pub open spec fn det_of(t: AffineRats) -> Rat {
    rat_sub(rat_mul(t.a, t.d), rat_mul(t.b, t.c))
}

/// The fixed inversion threshold: one part in ten billion.
pub open spec fn epsilon() -> Rat {
    Rat { n: 1, d: 10000000000 }
}

/// A transform can be inverted exactly when the magnitude of its
/// determinant is not below the threshold.
pub open spec fn invertible(t: AffineRats) -> bool {
    !rat_lt(rat_abs(det_of(t)), epsilon())
}

/// The closed-form inverse of an invertible matrix.
pub open spec fn inverse_rats(t: AffineRats) -> AffineRats {
    let det = det_of(t);
    AffineRats {
        a: rat_div(t.d, det),
        b: rat_div(rat_neg(t.b), det),
        c: rat_div(rat_neg(t.c), det),
        d: rat_div(t.a, det),
        tx: rat_div(rat_sub(rat_mul(t.b, t.ty), rat_mul(t.d, t.tx)), det),
        ty: rat_div(rat_sub(rat_mul(t.c, t.tx), rat_mul(t.a, t.ty)), det),
    }
}

/// The matrix that applies `f` first and `s` second: the product `s · f`
/// in homogeneous form.
pub open spec fn compose_rats(f: AffineRats, s: AffineRats) -> AffineRats {
    AffineRats {
        a: rat_add(rat_mul(s.a, f.a), rat_mul(s.b, f.c)),
        b: rat_add(rat_mul(s.a, f.b), rat_mul(s.b, f.d)),
        c: rat_add(rat_mul(s.c, f.a), rat_mul(s.d, f.c)),
        d: rat_add(rat_mul(s.c, f.b), rat_mul(s.d, f.d)),
        tx: apply_x(s, f.tx, f.ty),
        ty: apply_y(s, f.tx, f.ty),
    }
}

/// The identity coefficients.
pub open spec fn is_identity(t: AffineRats) -> bool {
    rat_eq(t.a, rat_int(1)) && rat_eq(t.b, rat_int(0)) && rat_eq(t.c, rat_int(0)) && rat_eq(
        t.d,
        rat_int(1),
    ) && rat_eq(t.tx, rat_int(0)) && rat_eq(t.ty, rat_int(0))
}

/// The coefficients of a translation by `(dx, dy)`.
pub open spec fn is_translation(t: AffineRats, dx: Rat, dy: Rat) -> bool {
    rat_eq(t.a, rat_int(1)) && rat_eq(t.b, rat_int(0)) && rat_eq(t.c, rat_int(0)) && rat_eq(
        t.d,
        rat_int(1),
    ) && rat_eq(t.tx, dx) && rat_eq(t.ty, dy)
}

/// The coefficients of an axis-aligned scaling by `(sx, sy)`.
pub open spec fn is_scaling(t: AffineRats, sx: Rat, sy: Rat) -> bool {
    rat_eq(t.a, sx) && rat_eq(t.b, rat_int(0)) && rat_eq(t.c, rat_int(0)) && rat_eq(t.d, sy)
        && rat_eq(t.tx, rat_int(0)) && rat_eq(t.ty, rat_int(0))
}

/// The coefficients of a rotation with the given cosine and sine.
pub open spec fn is_rotation(t: AffineRats, cos_a: Rat, sin_a: Rat) -> bool {
    rat_eq(t.a, cos_a) && rat_eq(t.b, rat_neg(sin_a)) && rat_eq(t.c, sin_a) && rat_eq(t.d, cos_a)
        && rat_eq(t.tx, rat_int(0)) && rat_eq(t.ty, rat_int(0))
}

/// Applying a matrix to a point gives well-formed coordinates.
pub proof fn lemma_apply_wf(t: AffineRats, x: Rat, y: Rat)
    requires
        rats_wf(t),
        rat_wf(x),
        rat_wf(y),
    ensures
        rat_wf(apply_x(t, x, y)),
        rat_wf(apply_y(t, x, y)),
{
    lemma_rat_mul_wf(t.a, x);
    lemma_rat_mul_wf(t.b, y);
    lemma_rat_add_wf(rat_mul(t.a, x), rat_mul(t.b, y));
    lemma_rat_add_wf(rat_add(rat_mul(t.a, x), rat_mul(t.b, y)), t.tx);
    lemma_rat_mul_wf(t.c, x);
    lemma_rat_mul_wf(t.d, y);
    lemma_rat_add_wf(rat_mul(t.c, x), rat_mul(t.d, y));
    lemma_rat_add_wf(rat_add(rat_mul(t.c, x), rat_mul(t.d, y)), t.ty);
}

/// The determinant of a well-formed matrix is well formed.
pub proof fn lemma_det_wf(t: AffineRats)
    requires
        rats_wf(t),
    ensures
        rat_wf(det_of(t)),
{
    lemma_rat_mul_wf(t.a, t.d);
    lemma_rat_mul_wf(t.b, t.c);
    lemma_rat_add_wf(rat_mul(t.a, t.d), rat_neg(rat_mul(t.b, t.c)));
}

/// An invertible matrix has a nonzero determinant.
pub proof fn lemma_invertible_det_nonzero(t: AffineRats)
    requires
        rats_wf(t),
        invertible(t),
    ensures
        det_of(t).n != 0,
{
    lemma_det_wf(t);
    if det_of(t).n == 0 {
        assert(rat_lt(rat_abs(det_of(t)), epsilon()));
    }
}

/// The inverse of an invertible well-formed matrix is well formed.
pub proof fn lemma_inverse_rats_wf(t: AffineRats)
    requires
        rats_wf(t),
        invertible(t),
    ensures
        rats_wf(inverse_rats(t)),
{
    lemma_det_wf(t);
    lemma_invertible_det_nonzero(t);
    let det = det_of(t);
    lemma_rat_div_wf(t.d, det);
    lemma_rat_div_wf(rat_neg(t.b), det);
    lemma_rat_div_wf(rat_neg(t.c), det);
    lemma_rat_div_wf(t.a, det);
    lemma_rat_mul_wf(t.b, t.ty);
    lemma_rat_mul_wf(t.d, t.tx);
    lemma_rat_add_wf(rat_mul(t.b, t.ty), rat_neg(rat_mul(t.d, t.tx)));
    lemma_rat_div_wf(rat_sub(rat_mul(t.b, t.ty), rat_mul(t.d, t.tx)), det);
    lemma_rat_mul_wf(t.c, t.tx);
    lemma_rat_mul_wf(t.a, t.ty);
    lemma_rat_add_wf(rat_mul(t.c, t.tx), rat_neg(rat_mul(t.a, t.ty)));
    lemma_rat_div_wf(rat_sub(rat_mul(t.c, t.tx), rat_mul(t.a, t.ty)), det);
}

/// Equal matrices applied to equal points give equal coordinates.
pub proof fn lemma_apply_congr(t: AffineRats, u: AffineRats, x: Rat, x2: Rat, y: Rat, y2: Rat)
    requires
        rats_wf(t),
        rats_wf(u),
        rat_wf(x),
        rat_wf(x2),
        rat_wf(y),
        rat_wf(y2),
        rats_eq(t, u),
        rat_eq(x, x2),
        rat_eq(y, y2),
    ensures
        rat_eq(apply_x(t, x, y), apply_x(u, x2, y2)),
        rat_eq(apply_y(t, x, y), apply_y(u, x2, y2)),
{
    lemma_rat_mul_congr(t.a, u.a, x, x2);
    lemma_rat_mul_congr(t.b, u.b, y, y2);
    lemma_rat_mul_wf(t.a, x);
    lemma_rat_mul_wf(t.b, y);
    lemma_rat_mul_wf(u.a, x2);
    lemma_rat_mul_wf(u.b, y2);
    lemma_rat_add_congr(rat_mul(t.a, x), rat_mul(u.a, x2), rat_mul(t.b, y), rat_mul(u.b, y2));
    lemma_rat_add_wf(rat_mul(t.a, x), rat_mul(t.b, y));
    lemma_rat_add_wf(rat_mul(u.a, x2), rat_mul(u.b, y2));
    lemma_rat_add_congr(
        rat_add(rat_mul(t.a, x), rat_mul(t.b, y)),
        rat_add(rat_mul(u.a, x2), rat_mul(u.b, y2)),
        t.tx,
        u.tx,
    );
    lemma_rat_mul_congr(t.c, u.c, x, x2);
    lemma_rat_mul_congr(t.d, u.d, y, y2);
    lemma_rat_mul_wf(t.c, x);
    lemma_rat_mul_wf(t.d, y);
    lemma_rat_mul_wf(u.c, x2);
    lemma_rat_mul_wf(u.d, y2);
    lemma_rat_add_congr(rat_mul(t.c, x), rat_mul(u.c, x2), rat_mul(t.d, y), rat_mul(u.d, y2));
    lemma_rat_add_wf(rat_mul(t.c, x), rat_mul(t.d, y));
    lemma_rat_add_wf(rat_mul(u.c, x2), rat_mul(u.d, y2));
    lemma_rat_add_congr(
        rat_add(rat_mul(t.c, x), rat_mul(t.d, y)),
        rat_add(rat_mul(u.c, x2), rat_mul(u.d, y2)),
        t.ty,
        u.ty,
    );
}

impl AffineTransform {
    /// The coefficients as specification-level fractions.
    pub open spec fn rats(self) -> AffineRats {
        AffineRats {
            a: self.a.rat(),
            b: self.b.rat(),
            c: self.c.rat(),
            d: self.d.rat(),
            tx: self.tx.rat(),
            ty: self.ty.rat(),
        }
    }

    /// The transform that leaves every point in place.
    pub fn identity() -> (r: AffineTransform)
        ensures
            rats_wf(r.rats()),
            is_identity(r.rats()),
    {
        let r = AffineTransform {
            a: Real::one(),
            b: Real::zero(),
            c: Real::zero(),
            d: Real::one(),
            tx: Real::zero(),
            ty: Real::zero(),
        };
        proof {
            use_type_invariant(&r.a);
            use_type_invariant(&r.b);
            use_type_invariant(&r.c);
            use_type_invariant(&r.d);
            use_type_invariant(&r.tx);
            use_type_invariant(&r.ty);
        }
        r
    }

    /// The transform that moves every point by `(dx, dy)`.
    pub fn translation(dx: Real, dy: Real) -> (r: AffineTransform)
        ensures
            rats_wf(r.rats()),
            is_translation(r.rats(), dx.rat(), dy.rat()),
    {
        let r = AffineTransform {
            a: Real::one(),
            b: Real::zero(),
            c: Real::zero(),
            d: Real::one(),
            tx: dx,
            ty: dy,
        };
        proof {
            use_type_invariant(&r.a);
            use_type_invariant(&r.b);
            use_type_invariant(&r.c);
            use_type_invariant(&r.d);
            use_type_invariant(&r.tx);
            use_type_invariant(&r.ty);
        }
        r
    }

    /// The transform that scales the axes by `(sx, sy)`.
    pub fn scale(sx: Real, sy: Real) -> (r: AffineTransform)
        ensures
            rats_wf(r.rats()),
            is_scaling(r.rats(), sx.rat(), sy.rat()),
    {
        let r = AffineTransform {
            a: sx,
            b: Real::zero(),
            c: Real::zero(),
            d: sy,
            tx: Real::zero(),
            ty: Real::zero(),
        };
        proof {
            use_type_invariant(&r.a);
            use_type_invariant(&r.b);
            use_type_invariant(&r.c);
            use_type_invariant(&r.d);
            use_type_invariant(&r.tx);
            use_type_invariant(&r.ty);
        }
        r
    }

    /// The rotation with the given cosine and sine of its angle: the
    /// standard 2×2 rotation block with zero translation. The caller
    /// supplies the cosine and sine, as the library computes no
    /// transcendental functions.
    pub fn rotation(cos_a: Real, sin_a: Real) -> (r: AffineTransform)
        ensures
            rats_wf(r.rats()),
            is_rotation(r.rats(), cos_a.rat(), sin_a.rat()),
    {
        let b = sin_a.neg();
        let d = cos_a.clone();
        let r = AffineTransform {
            a: cos_a,
            b,
            c: sin_a,
            d,
            tx: Real::zero(),
            ty: Real::zero(),
        };
        proof {
            use_type_invariant(&r.a);
            use_type_invariant(&r.b);
            use_type_invariant(&r.c);
            use_type_invariant(&r.d);
            use_type_invariant(&r.tx);
            use_type_invariant(&r.ty);
        }
        r
    }

    /// Applies the transform to a point, exactly.
    pub fn transform_point(&self, x: &Real, y: &Real) -> (r: (Real, Real))
        ensures
            rat_eq(r.0.rat(), apply_x(self.rats(), x.rat(), y.rat())),
            rat_eq(r.1.rat(), apply_y(self.rats(), x.rat(), y.rat())),
    {
        proof {
            use_type_invariant(&self.a);
            use_type_invariant(&self.b);
            use_type_invariant(&self.c);
            use_type_invariant(&self.d);
            use_type_invariant(&self.tx);
            use_type_invariant(&self.ty);
            use_type_invariant(x);
            use_type_invariant(y);
        }
        let m1 = self.a.mul(x);
        let m2 = self.b.mul(y);
        let s1 = m1.add(&m2);
        let rx = s1.add(&self.tx);
        let m3 = self.c.mul(x);
        let m4 = self.d.mul(y);
        let s2 = m3.add(&m4);
        let ry = s2.add(&self.ty);
        proof {
            use_type_invariant(&m1);
            use_type_invariant(&m2);
            use_type_invariant(&s1);
            use_type_invariant(&rx);
            use_type_invariant(&m3);
            use_type_invariant(&m4);
            use_type_invariant(&s2);
            use_type_invariant(&ry);
            lemma_rat_mul_wf(self.a.rat(), x.rat());
            lemma_rat_mul_wf(self.b.rat(), y.rat());
            lemma_rat_add_rel2(
                m1.rat(),
                rat_mul(self.a.rat(), x.rat()),
                m2.rat(),
                rat_mul(self.b.rat(), y.rat()),
                s1.rat(),
            );
            lemma_rat_add_wf(rat_mul(self.a.rat(), x.rat()), rat_mul(self.b.rat(), y.rat()));
            lemma_rat_add_rel2(
                s1.rat(),
                rat_add(rat_mul(self.a.rat(), x.rat()), rat_mul(self.b.rat(), y.rat())),
                self.tx.rat(),
                self.tx.rat(),
                rx.rat(),
            );
            lemma_rat_mul_wf(self.c.rat(), x.rat());
            lemma_rat_mul_wf(self.d.rat(), y.rat());
            lemma_rat_add_rel2(
                m3.rat(),
                rat_mul(self.c.rat(), x.rat()),
                m4.rat(),
                rat_mul(self.d.rat(), y.rat()),
                s2.rat(),
            );
            lemma_rat_add_wf(rat_mul(self.c.rat(), x.rat()), rat_mul(self.d.rat(), y.rat()));
            lemma_rat_add_rel2(
                s2.rat(),
                rat_add(rat_mul(self.c.rat(), x.rat()), rat_mul(self.d.rat(), y.rat())),
                self.ty.rat(),
                self.ty.rat(),
                ry.rat(),
            );
        }
        (rx, ry)
    }

    /// The inverse transform, or nothing when the determinant's magnitude
    /// is below the fixed threshold.
    pub fn inverse(&self) -> (r: Option<AffineTransform>)
        ensures
            r is Some <==> invertible(self.rats()),
            match r {
                Some(i) => rats_wf(i.rats()) && rats_eq(i.rats(), inverse_rats(self.rats())),
                None => true,
            },
    {
        proof {
            use_type_invariant(&self.a);
            use_type_invariant(&self.b);
            use_type_invariant(&self.c);
            use_type_invariant(&self.d);
            use_type_invariant(&self.tx);
            use_type_invariant(&self.ty);
        }
        let ghost t = self.rats();
        let ad = self.a.mul(&self.d);
        let bc = self.b.mul(&self.c);
        let det = ad.sub(&bc);
        proof {
            use_type_invariant(&ad);
            use_type_invariant(&bc);
            use_type_invariant(&det);
            lemma_rat_mul_wf(t.a, t.d);
            lemma_rat_mul_wf(t.b, t.c);
            lemma_rat_sub_rel2(ad.rat(), rat_mul(t.a, t.d), bc.rat(), rat_mul(t.b, t.c), det.rat());
            lemma_det_wf(t);
        }
        let zero = Real::zero();
        proof {
            use_type_invariant(&zero);
            assert(zero.rat().n == 0);
            assert((det.rat().n * zero.rat().d < 0) == (det.rat().n < 0)) by (nonlinear_arith)
                requires
                    zero.rat().d > 0,
            ;
        }
        let neg_det = det.neg();
        let abs_det = if det.lt(&zero) {
            neg_det
        } else {
            det.clone()
        };
        proof {
            use_type_invariant(&abs_det);
            assert(rat_eq(abs_det.rat(), rat_abs(det.rat())));
            lemma_rat_abs_congr(det.rat(), det_of(t));
            lemma_rat_eq_trans(abs_det.rat(), rat_abs(det.rat()), rat_abs(det_of(t)));
        }
        let eps = Real::from_u64_fraction(1, 10000000000);
        proof {
            use_type_invariant(&eps);
            lemma_rat_lt_congr(abs_det.rat(), rat_abs(det_of(t)), eps.rat(), epsilon());
        }
        if abs_det.lt(&eps) {
            return None;
        }
        proof {
            lemma_invertible_det_nonzero(t);
            assert(det.rat().n != 0) by (nonlinear_arith)
                requires
                    det.rat().n * det_of(t).d == det_of(t).n * det.rat().d,
                    det_of(t).n != 0,
                    det_of(t).d > 0,
                    det.rat().d > 0,
            ;
            lemma_inverse_rats_wf(t);
        }
        let ia = self.d.div(&det);
        let nb = self.b.neg();
        let ib = nb.div(&det);
        let nc = self.c.neg();
        let ic = nc.div(&det);
        let id = self.a.div(&det);
        let bty = self.b.mul(&self.ty);
        let dtx = self.d.mul(&self.tx);
        let txn = bty.sub(&dtx);
        let itx = txn.div(&det);
        let ctx = self.c.mul(&self.tx);
        let aty = self.a.mul(&self.ty);
        let tyn = ctx.sub(&aty);
        let ity = tyn.div(&det);
        proof {
            use_type_invariant(&ia);
            use_type_invariant(&nb);
            use_type_invariant(&ib);
            use_type_invariant(&nc);
            use_type_invariant(&ic);
            use_type_invariant(&id);
            use_type_invariant(&bty);
            use_type_invariant(&dtx);
            use_type_invariant(&txn);
            use_type_invariant(&itx);
            use_type_invariant(&ctx);
            use_type_invariant(&aty);
            use_type_invariant(&tyn);
            use_type_invariant(&ity);
            let dt = det_of(t);
            lemma_rat_div_rel2(t.d, t.d, det.rat(), dt, ia.rat());
            lemma_rat_div_rel2(rat_neg(t.b), rat_neg(t.b), det.rat(), dt, ib.rat());
            lemma_rat_div_rel2(rat_neg(t.c), rat_neg(t.c), det.rat(), dt, ic.rat());
            lemma_rat_div_rel2(t.a, t.a, det.rat(), dt, id.rat());
            lemma_rat_mul_wf(t.b, t.ty);
            lemma_rat_mul_wf(t.d, t.tx);
            lemma_rat_sub_rel2(
                bty.rat(),
                rat_mul(t.b, t.ty),
                dtx.rat(),
                rat_mul(t.d, t.tx),
                txn.rat(),
            );
            lemma_rat_add_wf(rat_mul(t.b, t.ty), rat_neg(rat_mul(t.d, t.tx)));
            lemma_rat_div_rel2(
                txn.rat(),
                rat_sub(rat_mul(t.b, t.ty), rat_mul(t.d, t.tx)),
                det.rat(),
                dt,
                itx.rat(),
            );
            lemma_rat_mul_wf(t.c, t.tx);
            lemma_rat_mul_wf(t.a, t.ty);
            lemma_rat_sub_rel2(
                ctx.rat(),
                rat_mul(t.c, t.tx),
                aty.rat(),
                rat_mul(t.a, t.ty),
                tyn.rat(),
            );
            lemma_rat_add_wf(rat_mul(t.c, t.tx), rat_neg(rat_mul(t.a, t.ty)));
            lemma_rat_div_rel2(
                tyn.rat(),
                rat_sub(rat_mul(t.c, t.tx), rat_mul(t.a, t.ty)),
                det.rat(),
                dt,
                ity.rat(),
            );
        }
        Some(AffineTransform { a: ia, b: ib, c: ic, d: id, tx: itx, ty: ity })
    }

    /// The transform that applies this one first and `other` second.
    /// Composition order is significant: `a.compose(b)` generally differs
    /// from `b.compose(a)`.
    pub fn compose(&self, other: &AffineTransform) -> (r: AffineTransform)
        ensures
            rats_wf(r.rats()),
            rats_eq(r.rats(), compose_rats(self.rats(), other.rats())),
    {
        proof {
            use_type_invariant(&self.a);
            use_type_invariant(&self.b);
            use_type_invariant(&self.c);
            use_type_invariant(&self.d);
            use_type_invariant(&self.tx);
            use_type_invariant(&self.ty);
            use_type_invariant(&other.a);
            use_type_invariant(&other.b);
            use_type_invariant(&other.c);
            use_type_invariant(&other.d);
            use_type_invariant(&other.tx);
            use_type_invariant(&other.ty);
        }
        let ghost f = self.rats();
        let ghost s = other.rats();
        let a1 = other.a.mul(&self.a);
        let a2 = other.b.mul(&self.c);
        let ra = a1.add(&a2);
        let b1 = other.a.mul(&self.b);
        let b2 = other.b.mul(&self.d);
        let rb = b1.add(&b2);
        let c1 = other.c.mul(&self.a);
        let c2 = other.d.mul(&self.c);
        let rc = c1.add(&c2);
        let d1 = other.c.mul(&self.b);
        let d2 = other.d.mul(&self.d);
        let rd = d1.add(&d2);
        let (rtx, rty) = other.transform_point(&self.tx, &self.ty);
        proof {
            use_type_invariant(&a1);
            use_type_invariant(&a2);
            use_type_invariant(&ra);
            use_type_invariant(&b1);
            use_type_invariant(&b2);
            use_type_invariant(&rb);
            use_type_invariant(&c1);
            use_type_invariant(&c2);
            use_type_invariant(&rc);
            use_type_invariant(&d1);
            use_type_invariant(&d2);
            use_type_invariant(&rd);
            use_type_invariant(&rtx);
            use_type_invariant(&rty);
            lemma_rat_mul_wf(s.a, f.a);
            lemma_rat_mul_wf(s.b, f.c);
            lemma_rat_add_rel2(a1.rat(), rat_mul(s.a, f.a), a2.rat(), rat_mul(s.b, f.c), ra.rat());
            lemma_rat_mul_wf(s.a, f.b);
            lemma_rat_mul_wf(s.b, f.d);
            lemma_rat_add_rel2(b1.rat(), rat_mul(s.a, f.b), b2.rat(), rat_mul(s.b, f.d), rb.rat());
            lemma_rat_mul_wf(s.c, f.a);
            lemma_rat_mul_wf(s.d, f.c);
            lemma_rat_add_rel2(c1.rat(), rat_mul(s.c, f.a), c2.rat(), rat_mul(s.d, f.c), rc.rat());
            lemma_rat_mul_wf(s.c, f.b);
            lemma_rat_mul_wf(s.d, f.d);
            lemma_rat_add_rel2(d1.rat(), rat_mul(s.c, f.b), d2.rat(), rat_mul(s.d, f.d), rd.rat());
        }
        AffineTransform { a: ra, b: rb, c: rc, d: rd, tx: rtx, ty: rty }
    }
}

impl Clone for AffineTransform {
    /// The copy holds the same coefficients.
    fn clone(&self) -> (r: AffineTransform)
        ensures
            r.rats() == self.rats(),
    {
        AffineTransform {
            a: self.a.clone(),
            b: self.b.clone(),
            c: self.c.clone(),
            d: self.d.clone(),
            tx: self.tx.clone(),
            ty: self.ty.clone(),
        }
    }
}

impl PartialEq for AffineTransform {
    /// Equality of the six exact coefficient values.
    fn eq(&self, other: &AffineTransform) -> (r: bool) {
        self.a == other.a && self.b == other.b && self.c == other.c && self.d == other.d
            && self.tx == other.tx && self.ty == other.ty
    }
}

impl vstd::std_specs::cmp::PartialEqSpecImpl for AffineTransform {
    open spec fn obeys_eq_spec() -> bool {
        true
    }

    open spec fn eq_spec(&self, other: &AffineTransform) -> bool {
        rats_eq(self.rats(), other.rats())
    }
}


/// Point-mapping law: the identity transform maps every point to itself —
/// `identity.transform_point(x, y) == (x, y)`.
pub proof fn lemma_identity_maps_point(t: AffineRats, x: Rat, y: Rat)
    requires
        rats_wf(t),
        rat_wf(x),
        rat_wf(y),
        is_identity(t),
    ensures
        rat_eq(apply_x(t, x, y), x),
        rat_eq(apply_y(t, x, y), y),
{
    lemma_linear_form_identity(t.a, t.b, t.tx, x, y);
    lemma_linear_form_identity(t.d, t.c, t.ty, y, x);
}

/// Point-mapping law: a translation moves every point by its offsets —
/// `translation(dx, dy).transform_point(x, y) == (x + dx, y + dy)`.
pub proof fn lemma_translation_maps_point(t: AffineRats, dx: Rat, dy: Rat, x: Rat, y: Rat)
    requires
        rats_wf(t),
        rat_wf(dx),
        rat_wf(dy),
        rat_wf(x),
        rat_wf(y),
        is_translation(t, dx, dy),
    ensures
        rat_eq(apply_x(t, x, y), rat_add(x, dx)),
        rat_eq(apply_y(t, x, y), rat_add(y, dy)),
{
    lemma_linear_form_translation(t.a, t.b, t.tx, dx, x, y);
    lemma_linear_form_translation(t.d, t.c, t.ty, dy, y, x);
}

/// Point-mapping law: an axis-aligned scaling multiplies each coordinate —
/// `scale(sx, sy).transform_point(x, y) == (sx·x, sy·y)`.
pub proof fn lemma_scaling_maps_point(t: AffineRats, sx: Rat, sy: Rat, x: Rat, y: Rat)
    requires
        rats_wf(t),
        rat_wf(sx),
        rat_wf(sy),
        rat_wf(x),
        rat_wf(y),
        is_scaling(t, sx, sy),
    ensures
        rat_eq(apply_x(t, x, y), rat_mul(sx, x)),
        rat_eq(apply_y(t, x, y), rat_mul(sy, y)),
{
    lemma_linear_form_scaling(t.a, t.b, t.tx, sx, x, y);
    lemma_linear_form_scaling(t.d, t.c, t.ty, sy, y, x);
}

/// One coordinate of the identity: `a·x + b·y + c` with `a` one and `b`,
/// `c` zero denotes `x`.
proof fn lemma_linear_form_identity(a: Rat, b: Rat, c: Rat, x: Rat, y: Rat)
    requires
        rat_wf(a),
        rat_wf(b),
        rat_wf(c),
        rat_wf(x),
        rat_wf(y),
        rat_eq(a, rat_int(1)),
        rat_eq(b, rat_int(0)),
        rat_eq(c, rat_int(0)),
    ensures
        rat_eq(rat_add(rat_add(rat_mul(a, x), rat_mul(b, y)), c), x),
{
    lemma_linear_form_scaling(a, b, c, rat_int(1), x, y);
    lemma_rat_mul_wf(a, x);
    lemma_rat_mul_wf(b, y);
    lemma_rat_add_wf(rat_mul(a, x), rat_mul(b, y));
    lemma_rat_add_wf(rat_add(rat_mul(a, x), rat_mul(b, y)), c);
    assert(rat_eq(rat_mul(rat_int(1), x), x)) by (nonlinear_arith);
    lemma_rat_eq_trans(rat_add(rat_add(rat_mul(a, x), rat_mul(b, y)), c), rat_mul(rat_int(1), x), x);
}

/// One coordinate of a translation: `a·x + b·y + c` with `a` one, `b`
/// zero and `c` equal to `dx` denotes `x + dx`.
proof fn lemma_linear_form_translation(a: Rat, b: Rat, c: Rat, dx: Rat, x: Rat, y: Rat)
    requires
        rat_wf(a),
        rat_wf(b),
        rat_wf(c),
        rat_wf(dx),
        rat_wf(x),
        rat_wf(y),
        rat_eq(a, rat_int(1)),
        rat_eq(b, rat_int(0)),
        rat_eq(c, dx),
    ensures
        rat_eq(rat_add(rat_add(rat_mul(a, x), rat_mul(b, y)), c), rat_add(x, dx)),
{
    lemma_rat_mul_wf(a, x);
    lemma_rat_mul_wf(b, y);
    lemma_rat_add_wf(rat_mul(a, x), rat_mul(b, y));
    lemma_rat_add_wf(rat_add(rat_mul(a, x), rat_mul(b, y)), c);
    lemma_rat_add_wf(x, dx);
    lemma_rat_add_wf(x, c);
    assert(b.n == 0);
    assert(rat_mul(b, y).n == 0) by (nonlinear_arith)
        requires
            b.n == 0,
    ;
    lemma_rat_add_zero(rat_mul(a, x), rat_mul(b, y));
    assert(rat_eq(rat_mul(rat_int(1), x), x)) by (nonlinear_arith);
    lemma_rat_mul_congr(a, rat_int(1), x, x);
    lemma_rat_mul_wf(rat_int(1), x);
    lemma_rat_eq_trans(rat_mul(a, x), rat_mul(rat_int(1), x), x);
    lemma_rat_eq_trans(rat_add(rat_mul(a, x), rat_mul(b, y)), rat_mul(a, x), x);
    lemma_rat_add_congr(rat_add(rat_mul(a, x), rat_mul(b, y)), x, c, dx);
}

/// One coordinate of a scaling: `a·x + b·y + c` with `a` equal to `s` and
/// `b`, `c` zero denotes `s·x`.
proof fn lemma_linear_form_scaling(a: Rat, b: Rat, c: Rat, s: Rat, x: Rat, y: Rat)
    requires
        rat_wf(a),
        rat_wf(b),
        rat_wf(c),
        rat_wf(s),
        rat_wf(x),
        rat_wf(y),
        rat_eq(a, s),
        rat_eq(b, rat_int(0)),
        rat_eq(c, rat_int(0)),
    ensures
        rat_eq(rat_add(rat_add(rat_mul(a, x), rat_mul(b, y)), c), rat_mul(s, x)),
{
    lemma_rat_mul_wf(a, x);
    lemma_rat_mul_wf(b, y);
    lemma_rat_mul_wf(s, x);
    lemma_rat_add_wf(rat_mul(a, x), rat_mul(b, y));
    lemma_rat_add_wf(rat_add(rat_mul(a, x), rat_mul(b, y)), c);
    assert(b.n == 0 && c.n == 0);
    assert(rat_mul(b, y).n == 0) by (nonlinear_arith)
        requires
            b.n == 0,
    ;
    lemma_rat_add_zero(rat_mul(a, x), rat_mul(b, y));
    lemma_rat_add_zero(rat_add(rat_mul(a, x), rat_mul(b, y)), c);
    lemma_rat_eq_trans(
        rat_add(rat_add(rat_mul(a, x), rat_mul(b, y)), c),
        rat_add(rat_mul(a, x), rat_mul(b, y)),
        rat_mul(a, x),
    );
    lemma_rat_mul_congr(a, s, x, x);
    lemma_rat_eq_trans(rat_add(rat_add(rat_mul(a, x), rat_mul(b, y)), c), rat_mul(a, x), rat_mul(s, x));
}

/// Composition law: for any two transforms and any point, the composed
/// matrix maps the point exactly where applying the first transform and
/// then the second does —
/// `t1.compose(t2).transform_point(p) == t2.transform_point(t1.transform_point(p))`.
pub proof fn lemma_composition_equivalence(f: AffineRats, s: AffineRats, x: Rat, y: Rat)
    requires
        rats_wf(f),
        rats_wf(s),
        rat_wf(x),
        rat_wf(y),
    ensures
        rat_eq(
            apply_x(compose_rats(f, s), x, y),
            apply_x(s, apply_x(f, x, y), apply_y(f, x, y)),
        ),
        rat_eq(
            apply_y(compose_rats(f, s), x, y),
            apply_y(s, apply_x(f, x, y), apply_y(f, x, y)),
        ),
{
    lemma_compose_coord(s.a, s.b, s.tx, f, x, y);
    lemma_compose_coord(s.c, s.d, s.ty, f, x, y);
}

/// One coordinate of the composition law: the row `(sa, sb, st)` applied
/// to the image of `(x, y)` under `f` equals the composed row applied to
/// `(x, y)` directly.
proof fn lemma_compose_coord(sa: Rat, sb: Rat, st: Rat, f: AffineRats, x: Rat, y: Rat)
    requires
        rat_wf(sa),
        rat_wf(sb),
        rat_wf(st),
        rats_wf(f),
        rat_wf(x),
        rat_wf(y),
    ensures
        rat_eq(
            rat_add(
                rat_add(
                    rat_mul(rat_add(rat_mul(sa, f.a), rat_mul(sb, f.c)), x),
                    rat_mul(rat_add(rat_mul(sa, f.b), rat_mul(sb, f.d)), y),
                ),
                rat_add(rat_add(rat_mul(sa, f.tx), rat_mul(sb, f.ty)), st),
            ),
            rat_add(
                rat_add(
                    rat_mul(sa, apply_x(f, x, y)),
                    rat_mul(sb, apply_y(f, x, y)),
                ),
                st,
            ),
        ),
{
    let p1 = rat_mul(rat_mul(sa, f.a), x);
    let p2 = rat_mul(rat_mul(sa, f.b), y);
    let p3 = rat_mul(sa, f.tx);
    let q1 = rat_mul(rat_mul(sb, f.c), x);
    let q2 = rat_mul(rat_mul(sb, f.d), y);
    let q3 = rat_mul(sb, f.ty);
    lemma_rat_mul_wf(sa, f.a);
    lemma_rat_mul_wf(sa, f.b);
    lemma_rat_mul_wf(sb, f.c);
    lemma_rat_mul_wf(sb, f.d);
    lemma_rat_mul_wf(rat_mul(sa, f.a), x);
    lemma_rat_mul_wf(rat_mul(sa, f.b), y);
    lemma_rat_mul_wf(rat_mul(sb, f.c), x);
    lemma_rat_mul_wf(rat_mul(sb, f.d), y);
    lemma_rat_mul_wf(sa, f.tx);
    lemma_rat_mul_wf(sb, f.ty);
    lemma_rat_mul_wf(f.a, x);
    lemma_rat_mul_wf(f.b, y);
    lemma_rat_mul_wf(f.c, x);
    lemma_rat_mul_wf(f.d, y);
    lemma_apply_wf(f, x, y);
    let fx = apply_x(f, x, y);
    let fy = apply_y(f, x, y);
    lemma_rat_mul_wf(sa, fx);
    lemma_rat_mul_wf(sb, fy);
    lemma_rat_add_wf(p1, p2);
    lemma_rat_add_wf(q1, q2);
    lemma_rat_add_wf(p1, q1);
    lemma_rat_add_wf(p2, q2);
    lemma_rat_add_wf(p3, q3);
    lemma_rat_add_wf(rat_add(p1, p2), p3);
    lemma_rat_add_wf(rat_add(q1, q2), q3);
    lemma_rat_add_wf(rat_add(p1, q1), rat_add(p2, q2));
    lemma_rat_add_wf(rat_add(p3, q3), st);
    lemma_rat_add_wf(rat_add(rat_add(p1, p2), p3), rat_add(rat_add(q1, q2), q3));
    lemma_rat_add_wf(rat_add(rat_add(p1, q1), rat_add(p2, q2)), rat_add(rat_add(p3, q3), st));
    lemma_rat_add_wf(
        rat_add(rat_add(rat_add(p1, p2), p3), rat_add(rat_add(q1, q2), q3)),
        st,
    );
    lemma_rat_add_wf(rat_add(rat_add(p1, q1), rat_add(p2, q2)), rat_add(p3, q3));
    lemma_rat_mul_wf(sa, apply_x(f, x, y));
    lemma_rat_mul_wf(sb, apply_y(f, x, y));
    lemma_rat_add_wf(rat_mul(sa, apply_x(f, x, y)), rat_mul(sb, apply_y(f, x, y)));
    lemma_rat_add_wf(rat_add(rat_mul(sa, apply_x(f, x, y)), rat_mul(sb, apply_y(f, x, y))), st);
    lemma_rat_add_wf(rat_add(p1, p2), rat_add(q1, q2));
    lemma_rat_add_wf(rat_add(rat_add(p1, p2), rat_add(q1, q2)), rat_add(p3, q3));
    lemma_rat_add_wf(rat_mul(sa, f.a), rat_mul(sb, f.c));
    lemma_rat_add_wf(rat_mul(sa, f.b), rat_mul(sb, f.d));
    lemma_rat_mul_wf(rat_add(rat_mul(sa, f.a), rat_mul(sb, f.c)), x);
    lemma_rat_mul_wf(rat_add(rat_mul(sa, f.b), rat_mul(sb, f.d)), y);
    lemma_rat_add_wf(
        rat_mul(rat_add(rat_mul(sa, f.a), rat_mul(sb, f.c)), x),
        rat_mul(rat_add(rat_mul(sa, f.b), rat_mul(sb, f.d)), y),
    );
    lemma_rat_add_wf(
        rat_add(
            rat_mul(rat_add(rat_mul(sa, f.a), rat_mul(sb, f.c)), x),
            rat_mul(rat_add(rat_mul(sa, f.b), rat_mul(sb, f.d)), y),
        ),
        rat_add(rat_add(p3, q3), st),
    );
    lemma_rat_add_wf(rat_add(rat_add(rat_add(p1, q1), rat_add(p2, q2)), rat_add(p3, q3)), st);
    // The right-hand side, expanded term by term.
    lemma_rat_mul_linear(sa, rat_mul(f.a, x), rat_mul(f.b, y), f.tx);
    lemma_rat_mul_linear(sb, rat_mul(f.c, x), rat_mul(f.d, y), f.ty);
    lemma_rat_mul_assoc(sa, f.a, x);
    lemma_rat_mul_assoc(sa, f.b, y);
    lemma_rat_mul_assoc(sb, f.c, x);
    lemma_rat_mul_assoc(sb, f.d, y);
    lemma_rat_mul_wf(sa, rat_mul(f.a, x));
    lemma_rat_mul_wf(sa, rat_mul(f.b, y));
    lemma_rat_mul_wf(sb, rat_mul(f.c, x));
    lemma_rat_mul_wf(sb, rat_mul(f.d, y));
    lemma_rat_add_wf(rat_mul(sa, rat_mul(f.a, x)), rat_mul(sa, rat_mul(f.b, y)));
    lemma_rat_add_wf(
        rat_add(rat_mul(sa, rat_mul(f.a, x)), rat_mul(sa, rat_mul(f.b, y))),
        p3,
    );
    lemma_rat_add_wf(rat_mul(sb, rat_mul(f.c, x)), rat_mul(sb, rat_mul(f.d, y)));
    lemma_rat_add_wf(
        rat_add(rat_mul(sb, rat_mul(f.c, x)), rat_mul(sb, rat_mul(f.d, y))),
        q3,
    );
    lemma_rat_add_congr(
        rat_mul(sa, rat_mul(f.a, x)),
        p1,
        rat_mul(sa, rat_mul(f.b, y)),
        p2,
    );
    lemma_rat_add_congr(
        rat_add(rat_mul(sa, rat_mul(f.a, x)), rat_mul(sa, rat_mul(f.b, y))),
        rat_add(p1, p2),
        p3,
        p3,
    );
    lemma_rat_eq_trans(
        rat_mul(sa, fx),
        rat_add(rat_add(rat_mul(sa, rat_mul(f.a, x)), rat_mul(sa, rat_mul(f.b, y))), p3),
        rat_add(rat_add(p1, p2), p3),
    );
    lemma_rat_add_congr(
        rat_mul(sb, rat_mul(f.c, x)),
        q1,
        rat_mul(sb, rat_mul(f.d, y)),
        q2,
    );
    lemma_rat_add_congr(
        rat_add(rat_mul(sb, rat_mul(f.c, x)), rat_mul(sb, rat_mul(f.d, y))),
        rat_add(q1, q2),
        q3,
        q3,
    );
    lemma_rat_eq_trans(
        rat_mul(sb, fy),
        rat_add(rat_add(rat_mul(sb, rat_mul(f.c, x)), rat_mul(sb, rat_mul(f.d, y))), q3),
        rat_add(rat_add(q1, q2), q3),
    );
    lemma_rat_add_congr(
        rat_mul(sa, fx),
        rat_add(rat_add(p1, p2), p3),
        rat_mul(sb, fy),
        rat_add(rat_add(q1, q2), q3),
    );
    lemma_rat_add_congr(
        rat_add(rat_mul(sa, fx), rat_mul(sb, fy)),
        rat_add(rat_add(rat_add(p1, p2), p3), rat_add(rat_add(q1, q2), q3)),
        st,
        st,
    );
    lemma_rat_add_wf(rat_mul(sa, fx), rat_mul(sb, fy));
    // The left-hand side, distributed term by term.
    lemma_rat_mul_distrib_sum(rat_mul(sa, f.a), rat_mul(sb, f.c), x);
    lemma_rat_mul_distrib_sum(rat_mul(sa, f.b), rat_mul(sb, f.d), y);
    lemma_rat_add_wf(rat_mul(sa, f.a), rat_mul(sb, f.c));
    lemma_rat_add_wf(rat_mul(sa, f.b), rat_mul(sb, f.d));
    lemma_rat_mul_wf(rat_add(rat_mul(sa, f.a), rat_mul(sb, f.c)), x);
    lemma_rat_mul_wf(rat_add(rat_mul(sa, f.b), rat_mul(sb, f.d)), y);
    lemma_rat_add_congr(
        rat_mul(rat_add(rat_mul(sa, f.a), rat_mul(sb, f.c)), x),
        rat_add(p1, q1),
        rat_mul(rat_add(rat_mul(sa, f.b), rat_mul(sb, f.d)), y),
        rat_add(p2, q2),
    );
    lemma_rat_add_wf(
        rat_mul(rat_add(rat_mul(sa, f.a), rat_mul(sb, f.c)), x),
        rat_mul(rat_add(rat_mul(sa, f.b), rat_mul(sb, f.d)), y),
    );
    lemma_rat_add_congr(
        rat_add(
            rat_mul(rat_add(rat_mul(sa, f.a), rat_mul(sb, f.c)), x),
            rat_mul(rat_add(rat_mul(sa, f.b), rat_mul(sb, f.d)), y),
        ),
        rat_add(rat_add(p1, q1), rat_add(p2, q2)),
        rat_add(rat_add(p3, q3), st),
        rat_add(rat_add(p3, q3), st),
    );
    // The two sides meet in the middle by exchange and reassociation.
    lemma_rat_add_exchange(rat_add(p1, p2), p3, rat_add(q1, q2), q3);
    lemma_rat_add_exchange(p1, p2, q1, q2);
    lemma_rat_add_congr(
        rat_add(rat_add(p1, p2), rat_add(q1, q2)),
        rat_add(rat_add(p1, q1), rat_add(p2, q2)),
        rat_add(p3, q3),
        rat_add(p3, q3),
    );
    lemma_rat_add_wf(rat_add(p1, p2), rat_add(q1, q2));
    lemma_rat_add_wf(rat_add(rat_add(p1, p2), rat_add(q1, q2)), rat_add(p3, q3));
    lemma_rat_eq_trans(
        rat_add(rat_add(rat_add(p1, p2), p3), rat_add(rat_add(q1, q2), q3)),
        rat_add(rat_add(rat_add(p1, p2), rat_add(q1, q2)), rat_add(p3, q3)),
        rat_add(rat_add(rat_add(p1, q1), rat_add(p2, q2)), rat_add(p3, q3)),
    );
    lemma_rat_add_congr(
        rat_add(rat_add(rat_add(p1, p2), p3), rat_add(rat_add(q1, q2), q3)),
        rat_add(rat_add(rat_add(p1, q1), rat_add(p2, q2)), rat_add(p3, q3)),
        st,
        st,
    );
    lemma_rat_add_wf(rat_add(rat_add(rat_add(p1, q1), rat_add(p2, q2)), rat_add(p3, q3)), st);
    lemma_rat_add_assoc(rat_add(rat_add(p1, q1), rat_add(p2, q2)), rat_add(p3, q3), st);
    // Chain: left side == regrouped == right side.
    lemma_rat_eq_trans(
        rat_add(
            rat_add(
                rat_mul(rat_add(rat_mul(sa, f.a), rat_mul(sb, f.c)), x),
                rat_mul(rat_add(rat_mul(sa, f.b), rat_mul(sb, f.d)), y),
            ),
            rat_add(rat_add(rat_mul(sa, f.tx), rat_mul(sb, f.ty)), st),
        ),
        rat_add(rat_add(rat_add(p1, q1), rat_add(p2, q2)), rat_add(rat_add(p3, q3), st)),
        rat_add(rat_add(rat_add(rat_add(p1, q1), rat_add(p2, q2)), rat_add(p3, q3)), st),
    );
    lemma_rat_eq_trans(
        rat_add(
            rat_add(
                rat_mul(rat_add(rat_mul(sa, f.a), rat_mul(sb, f.c)), x),
                rat_mul(rat_add(rat_mul(sa, f.b), rat_mul(sb, f.d)), y),
            ),
            rat_add(rat_add(rat_mul(sa, f.tx), rat_mul(sb, f.ty)), st),
        ),
        rat_add(rat_add(rat_add(rat_add(p1, q1), rat_add(p2, q2)), rat_add(p3, q3)), st),
        rat_add(rat_add(rat_add(rat_add(p1, p2), p3), rat_add(rat_add(q1, q2), q3)), st),
    );
    lemma_rat_eq_trans(
        rat_add(
            rat_add(
                rat_mul(rat_add(rat_mul(sa, f.a), rat_mul(sb, f.c)), x),
                rat_mul(rat_add(rat_mul(sa, f.b), rat_mul(sb, f.d)), y),
            ),
            rat_add(rat_add(rat_mul(sa, f.tx), rat_mul(sb, f.ty)), st),
        ),
        rat_add(rat_add(rat_add(rat_add(p1, p2), p3), rat_add(rat_add(q1, q2), q3)), st),
        rat_add(rat_add(rat_mul(sa, fx), rat_mul(sb, fy)), st),
    );
}


/// A source viewed through an affine transformation. A query for a
/// destination coordinate inverts the transform, maps the coordinate
/// through the inverse, rounds to the nearest integers, and delegates to
/// the wrapped source there; a singular transform, or a rounded coordinate
/// outside the range a `usize` can hold, yields absence. The declared
/// dimensions are the wrapped source's own — the transformed bounding box
/// is deliberately not recomputed.
pub struct Transformed<P> {
    pub processor: P,
    pub transform: AffineTransform,
}

impl<P> Transformed<P> {
    /// Wraps `processor` under `transform`.
    pub fn new(processor: P, transform: AffineTransform) -> (r: Transformed<P>)
        ensures
            r.processor == processor,
            r.transform == transform,
    {
        Transformed { processor, transform }
    }
}

impl<P: ImageProcessor> ImageProcessor for Transformed<P> {
    type Pixel = P::Pixel;

    type Error = P::Error;

    open spec fn wf(&self) -> bool {
        &&& self.processor.wf()
        &&& rats_wf(self.transform.rats())
    }

    open spec fn spec_width(&self) -> int {
        self.processor.spec_width()
    }

    open spec fn spec_height(&self) -> int {
        self.processor.spec_height()
    }

    open spec fn lookup_rel(&self, x: int, y: int, r: Result<Option<P::Pixel>, P::Error>) -> bool {
        let t = self.transform.rats();
        if !invertible(t) {
            r == Ok::<Option<P::Pixel>, P::Error>(None)
        } else {
            let inv = inverse_rats(t);
            let sx = apply_x(inv, rat_int(x), rat_int(y));
            let sy = apply_y(inv, rat_int(x), rat_int(y));
            forall|nx: int, ny: int|
                #![trigger rat_rounds_to(sx, nx), rat_rounds_to(sy, ny)]
                rat_rounds_to(sx, nx) && rat_rounds_to(sy, ny) ==> if 0 <= nx <= usize::MAX && 0
                    <= ny <= usize::MAX {
                    self.processor.lookup_rel(nx, ny, r)
                } else {
                    r == Ok::<Option<P::Pixel>, P::Error>(None)
                }
        }
    }

    fn dimensions(&self) -> (r: (usize, usize)) {
        self.processor.dimensions()
    }

    fn process_pixel(&self, x: usize, y: usize) -> (r: Result<Option<P::Pixel>, P::Error>) {
        let ghost t = self.transform.rats();
        match self.transform.inverse() {
            None => Ok(None),
            Some(inv) => {
                let xr = Real::from_u64(x as u64);
                let yr = Real::from_u64(y as u64);
                let (sx, sy) = inv.transform_point(&xr, &yr);
                let ghost ir = inverse_rats(t);
                let ghost spec_sx = apply_x(ir, rat_int(x as int), rat_int(y as int));
                let ghost spec_sy = apply_y(ir, rat_int(x as int), rat_int(y as int));
                proof {
                    use_type_invariant(&xr);
                    use_type_invariant(&yr);
                    use_type_invariant(&sx);
                    use_type_invariant(&sy);
                    lemma_inverse_rats_wf(t);
                    lemma_apply_congr(
                        inv.rats(),
                        ir,
                        xr.rat(),
                        rat_int(x as int),
                        yr.rat(),
                        rat_int(y as int),
                    );
                    lemma_apply_wf(inv.rats(), xr.rat(), yr.rat());
                    lemma_apply_wf(ir, rat_int(x as int), rat_int(y as int));
                    lemma_rat_eq_trans(
                        sx.rat(),
                        apply_x(inv.rats(), xr.rat(), yr.rat()),
                        spec_sx,
                    );
                    lemma_rat_eq_trans(
                        sy.rat(),
                        apply_y(inv.rats(), xr.rat(), yr.rat()),
                        spec_sy,
                    );
                }
                let ox = sx.round_to_usize();
                let oy = sy.round_to_usize();
                match (ox, oy) {
                    (Some(nx), Some(ny)) => {
                        let res = self.processor.process_pixel(nx, ny);
                        proof {
                            lemma_rat_rounds_to_congr(sx.rat(), spec_sx, nx as int);
                            lemma_rat_rounds_to_congr(sy.rat(), spec_sy, ny as int);
                            assert forall|kx: int, ky: int|
                                rat_rounds_to(spec_sx, kx) && rat_rounds_to(
                                    spec_sy,
                                    ky,
                                ) implies kx == nx as int && ky == ny as int by {
                                lemma_rat_rounds_to_unique(spec_sx, kx, nx as int);
                                lemma_rat_rounds_to_unique(spec_sy, ky, ny as int);
                            }
                        }
                        res
                    },
                    _ => {
                        proof {
                            assert forall|kx: int, ky: int|
                                rat_rounds_to(spec_sx, kx) && rat_rounds_to(
                                    spec_sy,
                                    ky,
                                ) implies !(0 <= kx <= usize::MAX && 0 <= ky
                                <= usize::MAX) by {
                                lemma_rat_rounds_to_congr(spec_sx, sx.rat(), kx);
                                lemma_rat_rounds_to_congr(spec_sy, sy.rat(), ky);
                            }
                        }
                        Ok(None)
                    },
                }
            },
        }
    }
}

/// Methods that hang a transformation off any pixel source.
pub trait TransformExt: ImageProcessor {
    /// Views this source through `transform`.
    fn transform(self, transform: AffineTransform) -> (r: Transformed<Self>)
        ensures
            r.processor == self,
            r.transform == transform,
    {
        Transformed { processor: self, transform }
    }

    /// Views this source moved by `(dx, dy)`.
    fn translate(self, dx: Real, dy: Real) -> (r: Transformed<Self>)
        ensures
            r.processor == self,
            rats_wf(r.transform.rats()),
            is_translation(r.transform.rats(), dx.rat(), dy.rat()),
    {
        Transformed { processor: self, transform: AffineTransform::translation(dx, dy) }
    }

    /// Views this source with its axes scaled by `(sx, sy)`.
    fn scale(self, sx: Real, sy: Real) -> (r: Transformed<Self>)
        ensures
            r.processor == self,
            rats_wf(r.transform.rats()),
            is_scaling(r.transform.rats(), sx.rat(), sy.rat()),
    {
        Transformed { processor: self, transform: AffineTransform::scale(sx, sy) }
    }

    /// Views this source rotated; the caller supplies the cosine and sine
    /// of the angle.
    fn rotate(self, cos_a: Real, sin_a: Real) -> (r: Transformed<Self>)
        ensures
            r.processor == self,
            rats_wf(r.transform.rats()),
            is_rotation(r.transform.rats(), cos_a.rat(), sin_a.rat()),
    {
        Transformed { processor: self, transform: AffineTransform::rotation(cos_a, sin_a) }
    }
}

impl<P: ImageProcessor> TransformExt for P {

}


/// Composition law: the identity transform is a two-sided identity for
/// composition — `t.compose(identity)` and `identity.compose(t)` both
/// have the coefficients of `t`.
pub proof fn lemma_identity_composition(t: AffineRats, id: AffineRats)
    requires
        rats_wf(t),
        rats_wf(id),
        is_identity(id),
    ensures
        rats_eq(compose_rats(t, id), t),
        rats_eq(compose_rats(id, t), t),
{
    // Applying the identity after t keeps each row of t.
    lemma_unit_zero_row(id.a, id.b, t.a, t.c);
    lemma_unit_zero_row(id.a, id.b, t.b, t.d);
    lemma_zero_unit_row(id.c, id.d, t.a, t.c);
    lemma_zero_unit_row(id.c, id.d, t.b, t.d);
    lemma_identity_maps_point(id, t.tx, t.ty);
    // Applying t after the identity keeps t's linear block and offsets.
    lemma_row_unit_zero(t.a, t.b, id.a, id.c);
    lemma_row_zero_unit(t.a, t.b, id.b, id.d);
    lemma_row_unit_zero(t.c, t.d, id.a, id.c);
    lemma_row_zero_unit(t.c, t.d, id.b, id.d);
    lemma_apply_to_zero(t.a, t.b, t.tx, id.tx, id.ty);
    lemma_apply_to_zero(t.c, t.d, t.ty, id.tx, id.ty);
}

/// A row `(u, z)` with `u` one and `z` zero picks the first entry:
/// `u·p + z·q == p`.
proof fn lemma_unit_zero_row(u: Rat, z: Rat, p: Rat, q: Rat)
    requires
        rat_wf(u),
        rat_wf(z),
        rat_wf(p),
        rat_wf(q),
        rat_eq(u, rat_int(1)),
        rat_eq(z, rat_int(0)),
    ensures
        rat_eq(rat_add(rat_mul(u, p), rat_mul(z, q)), p),
{
    lemma_rat_mul_wf(u, p);
    lemma_rat_mul_wf(z, q);
    lemma_rat_add_wf(rat_mul(u, p), rat_mul(z, q));
    assert(rat_mul(z, q).n == 0) by (nonlinear_arith)
        requires
            z.n == 0,
    ;
    lemma_rat_add_zero(rat_mul(u, p), rat_mul(z, q));
    lemma_rat_mul_congr(u, rat_int(1), p, p);
    lemma_rat_mul_wf(rat_int(1), p);
    assert(rat_eq(rat_mul(rat_int(1), p), p)) by (nonlinear_arith);
    lemma_rat_eq_trans(rat_mul(u, p), rat_mul(rat_int(1), p), p);
    lemma_rat_eq_trans(rat_add(rat_mul(u, p), rat_mul(z, q)), rat_mul(u, p), p);
}

/// A row `(z, u)` with `z` zero and `u` one picks the second entry:
/// `z·p + u·q == q`.
proof fn lemma_zero_unit_row(z: Rat, u: Rat, p: Rat, q: Rat)
    requires
        rat_wf(z),
        rat_wf(u),
        rat_wf(p),
        rat_wf(q),
        rat_eq(z, rat_int(0)),
        rat_eq(u, rat_int(1)),
    ensures
        rat_eq(rat_add(rat_mul(z, p), rat_mul(u, q)), q),
{
    lemma_rat_mul_wf(z, p);
    lemma_rat_mul_wf(u, q);
    lemma_rat_add_wf(rat_mul(z, p), rat_mul(u, q));
    lemma_rat_add_comm(rat_mul(z, p), rat_mul(u, q));
    lemma_rat_add_wf(rat_mul(u, q), rat_mul(z, p));
    lemma_unit_zero_row(u, z, q, p);
    lemma_rat_eq_trans(
        rat_add(rat_mul(z, p), rat_mul(u, q)),
        rat_add(rat_mul(u, q), rat_mul(z, p)),
        q,
    );
}

/// A pair multiplied into a unit/zero column picks the first entry:
/// `p·u + q·z == p` when `u` is one and `z` is zero.
proof fn lemma_row_unit_zero(p: Rat, q: Rat, u: Rat, z: Rat)
    requires
        rat_wf(p),
        rat_wf(q),
        rat_wf(u),
        rat_wf(z),
        rat_eq(u, rat_int(1)),
        rat_eq(z, rat_int(0)),
    ensures
        rat_eq(rat_add(rat_mul(p, u), rat_mul(q, z)), p),
{
    lemma_rat_mul_wf(p, u);
    lemma_rat_mul_wf(q, z);
    lemma_rat_add_wf(rat_mul(p, u), rat_mul(q, z));
    assert(rat_mul(q, z).n == 0) by (nonlinear_arith)
        requires
            z.n == 0,
    ;
    lemma_rat_add_zero(rat_mul(p, u), rat_mul(q, z));
    assert(u.n == u.d);
    lemma_rat_mul_one(p, u);
    lemma_rat_eq_trans(rat_add(rat_mul(p, u), rat_mul(q, z)), rat_mul(p, u), p);
}

/// A pair multiplied into a zero/unit column picks the second entry:
/// `p·z + q·u == q` when `z` is zero and `u` is one.
proof fn lemma_row_zero_unit(p: Rat, q: Rat, z: Rat, u: Rat)
    requires
        rat_wf(p),
        rat_wf(q),
        rat_wf(z),
        rat_wf(u),
        rat_eq(z, rat_int(0)),
        rat_eq(u, rat_int(1)),
    ensures
        rat_eq(rat_add(rat_mul(p, z), rat_mul(q, u)), q),
{
    lemma_rat_mul_wf(p, z);
    lemma_rat_mul_wf(q, u);
    lemma_rat_add_wf(rat_mul(p, z), rat_mul(q, u));
    assert(rat_mul(p, z).n == 0) by (nonlinear_arith)
        requires
            z.n == 0,
    ;
    lemma_rat_add_wf(rat_mul(q, u), rat_mul(p, z));
    lemma_rat_add_comm(rat_mul(p, z), rat_mul(q, u));
    lemma_rat_add_zero(rat_mul(q, u), rat_mul(p, z));
    assert(u.n == u.d);
    lemma_rat_mul_one(q, u);
    lemma_rat_eq_trans(
        rat_add(rat_mul(p, z), rat_mul(q, u)),
        rat_add(rat_mul(q, u), rat_mul(p, z)),
        rat_mul(q, u),
    );
    lemma_rat_eq_trans(rat_add(rat_mul(p, z), rat_mul(q, u)), rat_mul(q, u), q);
}

/// A linear form evaluated at a zero-valued point leaves its offset:
/// `a·zx + b·zy + c == c`.
proof fn lemma_apply_to_zero(a: Rat, b: Rat, c: Rat, zx: Rat, zy: Rat)
    requires
        rat_wf(a),
        rat_wf(b),
        rat_wf(c),
        rat_wf(zx),
        rat_wf(zy),
        rat_eq(zx, rat_int(0)),
        rat_eq(zy, rat_int(0)),
    ensures
        rat_eq(rat_add(rat_add(rat_mul(a, zx), rat_mul(b, zy)), c), c),
{
    lemma_rat_mul_wf(a, zx);
    lemma_rat_mul_wf(b, zy);
    lemma_rat_add_wf(rat_mul(a, zx), rat_mul(b, zy));
    lemma_rat_add_wf(rat_add(rat_mul(a, zx), rat_mul(b, zy)), c);
    assert(rat_mul(a, zx).n == 0 && rat_mul(b, zy).n == 0) by (nonlinear_arith)
        requires
            zx.n == 0,
            zy.n == 0,
    ;
    assert(rat_add(rat_mul(a, zx), rat_mul(b, zy)).n == 0) by (nonlinear_arith)
        requires
            rat_mul(a, zx).n == 0,
            rat_mul(b, zy).n == 0,
    ;
    lemma_rat_add_comm(rat_add(rat_mul(a, zx), rat_mul(b, zy)), c);
    lemma_rat_add_wf(c, rat_add(rat_mul(a, zx), rat_mul(b, zy)));
    lemma_rat_add_zero(c, rat_add(rat_mul(a, zx), rat_mul(b, zy)));
    lemma_rat_eq_trans(
        rat_add(rat_add(rat_mul(a, zx), rat_mul(b, zy)), c),
        rat_add(c, rat_add(rat_mul(a, zx), rat_mul(b, zy))),
        c,
    );
}

} // verus!
