//! The mathematical model of the coordinate algebra: rational numbers as
//! numerator/denominator pairs of unbounded integers, with exact operations
//! and the equivalence (cross multiplication) that identifies two pairs
//! denoting the same rational.
//!
//! Executable scalars carry their value as such a pair in their
//! specifications; the lemmas here supply the field laws that the public
//! algebra types re-export as group, action and torsor laws.

use vstd::prelude::*;

verus! {

use vstd::arithmetic::mul::lemma_mul_equality_converse;
use vstd::arithmetic::mul::lemma_mul_is_distributive_add_other_way;

/// A rational number, for specification purposes: the fraction `n / d`.
pub ghost struct Rat {
    pub n: int,
    pub d: int,
}

/// A well-formed pair has a positive denominator.
pub open spec fn rat_wf(a: Rat) -> bool {
    a.d > 0
}

/// `a` and `b` denote the same rational number.
///
/// Cross multiplication characterises equality of fractions whenever both
/// denominators are nonzero, whatever their signs.
pub open spec fn rat_eq(a: Rat, b: Rat) -> bool {
    a.n * b.d == b.n * a.d
}

/// The integer `k` as a rational.
pub open spec fn rat_int(k: int) -> Rat {
    Rat { n: k, d: 1 }
}

/// Exact sum.
pub open spec fn rat_add(a: Rat, b: Rat) -> Rat {
    Rat { n: a.n * b.d + b.n * a.d, d: a.d * b.d }
}

/// Exact negation.
pub open spec fn rat_neg(a: Rat) -> Rat {
    Rat { n: -a.n, d: a.d }
}

/// Exact difference.
pub open spec fn rat_sub(a: Rat, b: Rat) -> Rat {
    rat_add(a, rat_neg(b))
}

/// Exact product.
pub open spec fn rat_mul(a: Rat, b: Rat) -> Rat {
    Rat { n: a.n * b.n, d: a.d * b.d }
}

/// Exact quotient; the denominator stays positive when `a` and `b` are
/// well formed and `b` is nonzero.
pub open spec fn rat_div(a: Rat, b: Rat) -> Rat {
    if b.n >= 0 {
        Rat { n: a.n * b.d, d: a.d * b.n }
    } else {
        Rat { n: -(a.n * b.d), d: -(a.d * b.n) }
    }
}

/// `a < b`, valid when both denominators are positive.
pub open spec fn rat_lt(a: Rat, b: Rat) -> bool {
    a.n * b.d < b.n * a.d
}

/// Absolute value.
pub open spec fn rat_abs(a: Rat) -> Rat {
    if a.n >= 0 {
        a
    } else {
        rat_neg(a)
    }
}

/// `k` is the integer nearest to `a`, with half-way cases rounded away
/// from zero; valid when `a` is well formed.
pub open spec fn rat_rounds_to(a: Rat, k: int) -> bool {
    let twice_diff = 2 * a.n - 2 * k * a.d;
    (-a.d < twice_diff && twice_diff < a.d) || (twice_diff == -a.d && a.n >= 0) || (twice_diff
        == a.d && a.n <= 0)
}

/// Denoting the same rational is transitive.
pub proof fn lemma_rat_eq_trans(a: Rat, b: Rat, c: Rat)
    requires
        rat_wf(a),
        rat_wf(b),
        rat_wf(c),
        rat_eq(a, b),
        rat_eq(b, c),
    ensures
        rat_eq(a, c),
{
    assert(b.d * (a.n * c.d) == b.d * (c.n * a.d)) by (nonlinear_arith)
        requires
            a.n * b.d == b.n * a.d,
            b.n * c.d == c.n * b.d,
    ;
    lemma_mul_equality_converse(b.d, a.n * c.d, c.n * a.d);
}

/// Sums of equal rationals are equal.
#[verifier::rlimit(100)]
pub proof fn lemma_rat_add_congr(a: Rat, a2: Rat, b: Rat, b2: Rat)
    requires
        rat_wf(a),
        rat_wf(a2),
        rat_wf(b),
        rat_wf(b2),
        rat_eq(a, a2),
        rat_eq(b, b2),
    ensures
        rat_eq(rat_add(a, b), rat_add(a2, b2)),
{
    assert((a.n * b.d) * (a2.d * b2.d) == (a2.n * b2.d) * (a.d * b.d)) by (nonlinear_arith)
        requires
            a.n * a2.d == a2.n * a.d,
    ;
    assert((b.n * a.d) * (a2.d * b2.d) == (b2.n * a2.d) * (a.d * b.d)) by (nonlinear_arith)
        requires
            b.n * b2.d == b2.n * b.d,
    ;
    assert((a.n * b.d + b.n * a.d) * (a2.d * b2.d) == (a2.n * b2.d + b2.n * a2.d) * (a.d * b.d))
        by (nonlinear_arith)
        requires
            (a.n * b.d) * (a2.d * b2.d) == (a2.n * b2.d) * (a.d * b.d),
            (b.n * a.d) * (a2.d * b2.d) == (b2.n * a2.d) * (a.d * b.d),
    ;
}

/// Products of equal rationals are equal.
pub proof fn lemma_rat_mul_congr(a: Rat, a2: Rat, b: Rat, b2: Rat)
    requires
        rat_wf(a),
        rat_wf(a2),
        rat_wf(b),
        rat_wf(b2),
        rat_eq(a, a2),
        rat_eq(b, b2),
    ensures
        rat_eq(rat_mul(a, b), rat_mul(a2, b2)),
{
    assert((a.n * b.n) * (a2.d * b2.d) == (a2.n * b2.n) * (a.d * b.d)) by (nonlinear_arith)
        requires
            a.n * a2.d == a2.n * a.d,
            b.n * b2.d == b2.n * b.d,
    ;
}

/// Negations of equal rationals are equal.
pub proof fn lemma_rat_neg_congr(a: Rat, a2: Rat)
    requires
        rat_eq(a, a2),
    ensures
        rat_eq(rat_neg(a), rat_neg(a2)),
{
    assert((-a.n) * a2.d == (-a2.n) * a.d) by (nonlinear_arith)
        requires
            a.n * a2.d == a2.n * a.d,
    ;
}

/// Differences of equal rationals are equal.
pub proof fn lemma_rat_sub_congr(a: Rat, a2: Rat, b: Rat, b2: Rat)
    requires
        rat_wf(a),
        rat_wf(a2),
        rat_wf(b),
        rat_wf(b2),
        rat_eq(a, a2),
        rat_eq(b, b2),
    ensures
        rat_eq(rat_sub(a, b), rat_sub(a2, b2)),
{
    lemma_rat_neg_congr(b, b2);
    lemma_rat_add_congr(a, a2, rat_neg(b), rat_neg(b2));
}

/// An equal nonzero divisor gives an equal quotient.
pub proof fn lemma_rat_div_congr(a: Rat, a2: Rat, b: Rat, b2: Rat)
    requires
        rat_wf(a),
        rat_wf(a2),
        rat_wf(b),
        rat_wf(b2),
        rat_eq(a, a2),
        rat_eq(b, b2),
        b.n != 0,
    ensures
        b2.n != 0,
        rat_eq(rat_div(a, b), rat_div(a2, b2)),
{
    assert(b2.n != 0 && (b.n >= 0 <==> b2.n >= 0)) by (nonlinear_arith)
        requires
            b.n * b2.d == b2.n * b.d,
            b.d > 0,
            b2.d > 0,
            b.n != 0,
    ;
    if b.n >= 0 {
        assert((a.n * b.d) * (a2.d * b2.n) == (a2.n * b2.d) * (a.d * b.n)) by (nonlinear_arith)
            requires
                a.n * a2.d == a2.n * a.d,
                b.n * b2.d == b2.n * b.d,
        ;
    } else {
        assert((a.n * b.d) * (a2.d * b2.n) == (a2.n * b2.d) * (a.d * b.n)) by (nonlinear_arith)
            requires
                a.n * a2.d == a2.n * a.d,
                b.n * b2.d == b2.n * b.d,
        ;
        assert((-(a.n * b.d)) * (-(a2.d * b2.n)) == (-(a2.n * b2.d)) * (-(a.d * b.n)))
            by (nonlinear_arith)
            requires
                (a.n * b.d) * (a2.d * b2.n) == (a2.n * b2.d) * (a.d * b.n),
        ;
    }
}

/// A quotient by a nonzero well-formed divisor is well formed.
pub proof fn lemma_rat_div_wf(a: Rat, b: Rat)
    requires
        rat_wf(a),
        rat_wf(b),
        b.n != 0,
    ensures
        rat_wf(rat_div(a, b)),
{
    if b.n >= 0 {
        assert(a.d * b.n > 0) by (nonlinear_arith)
            requires
                a.d > 0,
                b.n > 0,
        ;
    } else {
        assert(-(a.d * b.n) > 0) by (nonlinear_arith)
            requires
                a.d > 0,
                b.n < 0,
        ;
    }
}

/// Addition is commutative.
pub proof fn lemma_rat_add_comm(a: Rat, b: Rat)
    ensures
        rat_eq(rat_add(a, b), rat_add(b, a)),
{
    assert((a.n * b.d + b.n * a.d) * (b.d * a.d) == (b.n * a.d + a.n * b.d) * (a.d * b.d))
        by (nonlinear_arith);
}

/// Addition is associative.
#[verifier::rlimit(100)]
pub proof fn lemma_rat_add_assoc(a: Rat, b: Rat, c: Rat)
    ensures
        rat_eq(rat_add(a, rat_add(b, c)), rat_add(rat_add(a, b), c)),
{
    assert((a.n * (b.d * c.d) + (b.n * c.d + c.n * b.d) * a.d) * ((a.d * b.d) * c.d) == ((a.n * b.d
        + b.n * a.d) * c.d + c.n * (a.d * b.d)) * (a.d * (b.d * c.d))) by (nonlinear_arith);
}

/// Adding a rational equal to zero changes nothing.
pub proof fn lemma_rat_add_zero(a: Rat, z: Rat)
    requires
        z.n == 0,
    ensures
        rat_eq(rat_add(a, z), a),
        rat_eq(rat_add(z, a), a),
{
    assert((a.n * z.d + z.n * a.d) * a.d == a.n * (a.d * z.d) && (z.n * a.d + a.n * z.d) * a.d
        == a.n * (z.d * a.d)) by (nonlinear_arith)
        requires
            z.n == 0,
    ;
}

/// A rational plus its negation is zero.
pub proof fn lemma_rat_add_neg(a: Rat)
    ensures
        rat_eq(rat_add(a, rat_neg(a)), rat_int(0)),
{
    assert((a.n * a.d + (-a.n) * a.d) * 1 == 0 * (a.d * a.d)) by (nonlinear_arith);
}

/// Multiplication is commutative.
pub proof fn lemma_rat_mul_comm(a: Rat, b: Rat)
    ensures
        rat_eq(rat_mul(a, b), rat_mul(b, a)),
{
    assert((a.n * b.n) * (b.d * a.d) == (b.n * a.n) * (a.d * b.d)) by (nonlinear_arith);
}

/// Multiplication is associative.
pub proof fn lemma_rat_mul_assoc(a: Rat, b: Rat, c: Rat)
    ensures
        rat_eq(rat_mul(a, rat_mul(b, c)), rat_mul(rat_mul(a, b), c)),
{
    assert(rat_eq(rat_mul(a, rat_mul(b, c)), rat_mul(rat_mul(a, b), c))) by (nonlinear_arith);
}

/// Multiplying by a rational equal to one changes nothing.
pub proof fn lemma_rat_mul_one(a: Rat, o: Rat)
    requires
        o.n == o.d,
    ensures
        rat_eq(rat_mul(a, o), a),
{
    assert((a.n * o.n) * a.d == a.n * (a.d * o.d)) by (nonlinear_arith)
        requires
            o.n == o.d,
    ;
}

/// Regrouping identity behind the two distribution laws.
#[verifier::rlimit(100)]
proof fn lemma_cross_regroup(u: int, v: int, p: int, q: int, w: int)
    ensures
        (u * p + v * q) * ((q * w) * (p * w)) == (u * (p * w) + v * (q * w)) * ((q * p) * w),
{
    let z = (q * w) * (p * w);
    lemma_mul_is_distributive_add_other_way(z, u * p, v * q);
    lemma_mul_is_distributive_add_other_way((q * p) * w, u * (p * w), v * (q * w));
    assert((u * p) * ((q * w) * (p * w)) == (u * (p * w)) * ((q * p) * w)) by (nonlinear_arith);
    assert((v * q) * ((q * w) * (p * w)) == (v * (q * w)) * ((q * p) * w)) by (nonlinear_arith);
}

/// Multiplication distributes over the left summand.
#[verifier::rlimit(100)]
pub proof fn lemma_rat_mul_distrib_sum(a: Rat, b: Rat, m: Rat)
    ensures
        rat_eq(rat_mul(rat_add(a, b), m), rat_add(rat_mul(a, m), rat_mul(b, m))),
{
    lemma_cross_regroup(a.n * m.n, b.n * m.n, b.d, a.d, m.d);
    assert((a.n * b.d + b.n * a.d) * m.n == (a.n * m.n) * b.d + (b.n * m.n) * a.d)
        by (nonlinear_arith);
}

/// Multiplication distributes over a sum of multipliers.
#[verifier::rlimit(100)]
pub proof fn lemma_rat_mul_distrib_mult(a: Rat, m: Rat, n: Rat)
    ensures
        rat_eq(rat_mul(a, rat_add(m, n)), rat_add(rat_mul(a, m), rat_mul(a, n))),
{
    lemma_cross_regroup(a.n * m.n, a.n * n.n, n.d, m.d, a.d);
    assert(a.n * (m.n * n.d + n.n * m.d) == (a.n * m.n) * n.d + (a.n * n.n) * m.d)
        by (nonlinear_arith);
    assert(a.d * (m.d * n.d) == (m.d * n.d) * a.d && (a.d * m.d) * (a.d * n.d) == (m.d * a.d) * (
    n.d * a.d) && (a.n * m.n) * (a.d * n.d) == (a.n * m.n) * (n.d * a.d) && (a.n * n.n) * (a.d
        * m.d) == (a.n * n.n) * (m.d * a.d)) by (nonlinear_arith);
}

/// Adding to `p` the difference `q - p` lands exactly on `q`.
pub proof fn lemma_rat_sub_then_add(p: Rat, q: Rat)
    ensures
        rat_eq(rat_add(p, rat_sub(q, p)), q),
{
    assert(rat_eq(rat_add(p, rat_sub(q, p)), q)) by (nonlinear_arith);
}

/// Comparisons agree across equal rationals.
pub proof fn lemma_rat_lt_congr(a: Rat, a2: Rat, b: Rat, b2: Rat)
    requires
        rat_wf(a),
        rat_wf(a2),
        rat_wf(b),
        rat_wf(b2),
        rat_eq(a, a2),
        rat_eq(b, b2),
    ensures
        rat_lt(a, b) == rat_lt(a2, b2),
{
    assert((a.n * b.d < b.n * a.d) == (a2.n * b2.d < b2.n * a2.d)) by (nonlinear_arith)
        requires
            a.n * a2.d == a2.n * a.d,
            b.n * b2.d == b2.n * b.d,
            a.d > 0,
            a2.d > 0,
            b.d > 0,
            b2.d > 0,
    ;
}

/// Absolute values of equal rationals are equal.
pub proof fn lemma_rat_abs_congr(a: Rat, a2: Rat)
    requires
        rat_wf(a),
        rat_wf(a2),
        rat_eq(a, a2),
    ensures
        rat_eq(rat_abs(a), rat_abs(a2)),
{
    assert((a.n >= 0) == (a2.n >= 0)) by (nonlinear_arith)
        requires
            a.n * a2.d == a2.n * a.d,
            a.d > 0,
            a2.d > 0,
    ;
    if a.n >= 0 {
    } else {
        lemma_rat_neg_congr(a, a2);
    }
}

/// Rounding lands on the same integer for equal rationals.
pub proof fn lemma_rat_rounds_to_congr(a: Rat, b: Rat, k: int)
    requires
        rat_wf(a),
        rat_wf(b),
        rat_eq(a, b),
        rat_rounds_to(a, k),
    ensures
        rat_rounds_to(b, k),
{
    assert(rat_rounds_to(b, k)) by (nonlinear_arith)
        requires
            a.n * b.d == b.n * a.d,
            a.d > 0,
            b.d > 0,
            rat_rounds_to(a, k),
    ;
}


/// The sum of well-formed rationals is well formed.
pub proof fn lemma_rat_add_wf(a: Rat, b: Rat)
    requires
        rat_wf(a),
        rat_wf(b),
    ensures
        rat_wf(rat_add(a, b)),
{
    assert(a.d * b.d > 0) by (nonlinear_arith)
        requires
            a.d > 0,
            b.d > 0,
    ;
}

/// The product of well-formed rationals is well formed.
pub proof fn lemma_rat_mul_wf(a: Rat, b: Rat)
    requires
        rat_wf(a),
        rat_wf(b),
    ensures
        rat_wf(rat_mul(a, b)),
{
    assert(a.d * b.d > 0) by (nonlinear_arith)
        requires
            a.d > 0,
            b.d > 0,
    ;
}

/// Associativity carried to results known only up to equality: if `bc`,
/// `ab`, `a_bc` and `ab_c` denote the sums their names suggest, then
/// `a + (b + c)` and `(a + b) + c` denote the same rational.
pub proof fn lemma_rat_add_assoc_rel(a: Rat, b: Rat, c: Rat, bc: Rat, ab: Rat, a_bc: Rat, ab_c: Rat)
    requires
        rat_wf(a),
        rat_wf(b),
        rat_wf(c),
        rat_wf(bc),
        rat_wf(ab),
        rat_wf(a_bc),
        rat_wf(ab_c),
        rat_eq(bc, rat_add(b, c)),
        rat_eq(a_bc, rat_add(a, bc)),
        rat_eq(ab, rat_add(a, b)),
        rat_eq(ab_c, rat_add(ab, c)),
    ensures
        rat_eq(a_bc, ab_c),
{
    lemma_rat_add_wf(a, b);
    lemma_rat_add_wf(b, c);
    lemma_rat_add_wf(a, bc);
    lemma_rat_add_wf(ab, c);
    lemma_rat_add_wf(a, rat_add(b, c));
    lemma_rat_add_wf(rat_add(a, b), c);
    lemma_rat_add_congr(a, a, bc, rat_add(b, c));
    lemma_rat_eq_trans(a_bc, rat_add(a, bc), rat_add(a, rat_add(b, c)));
    lemma_rat_add_assoc(a, b, c);
    lemma_rat_eq_trans(a_bc, rat_add(a, rat_add(b, c)), rat_add(rat_add(a, b), c));
    lemma_rat_add_congr(rat_add(a, b), ab, c, c);
    lemma_rat_eq_trans(a_bc, rat_add(rat_add(a, b), c), rat_add(ab, c));
    lemma_rat_eq_trans(a_bc, rat_add(ab, c), ab_c);
}

/// Commutativity carried to results known only up to equality.
pub proof fn lemma_rat_add_comm_rel(a: Rat, b: Rat, ab: Rat, ba: Rat)
    requires
        rat_wf(a),
        rat_wf(b),
        rat_wf(ab),
        rat_wf(ba),
        rat_eq(ab, rat_add(a, b)),
        rat_eq(ba, rat_add(b, a)),
    ensures
        rat_eq(ab, ba),
{
    lemma_rat_add_wf(a, b);
    lemma_rat_add_wf(b, a);
    lemma_rat_add_comm(a, b);
    lemma_rat_eq_trans(ab, rat_add(a, b), rat_add(b, a));
    lemma_rat_eq_trans(ab, rat_add(b, a), ba);
}

/// Adding a zero-valued rational gives back the other summand, carried to
/// results known only up to equality.
pub proof fn lemma_rat_add_zero_rel(a: Rat, z: Rat, r: Rat)
    requires
        rat_wf(a),
        rat_wf(z),
        rat_wf(r),
        z.n == 0,
        rat_eq(r, rat_add(a, z)) || rat_eq(r, rat_add(z, a)),
    ensures
        rat_eq(r, a),
{
    lemma_rat_add_wf(a, z);
    lemma_rat_add_wf(z, a);
    lemma_rat_add_zero(a, z);
    if rat_eq(r, rat_add(a, z)) {
        lemma_rat_eq_trans(r, rat_add(a, z), a);
    } else {
        lemma_rat_eq_trans(r, rat_add(z, a), a);
    }
}

/// A rational plus a negation of itself is zero, carried to results known
/// only up to equality.
pub proof fn lemma_rat_add_neg_rel(a: Rat, na: Rat, r: Rat)
    requires
        rat_wf(a),
        rat_wf(na),
        rat_wf(r),
        rat_eq(na, rat_neg(a)),
        rat_eq(r, rat_add(a, na)),
    ensures
        rat_eq(r, rat_int(0)),
{
    lemma_rat_add_wf(a, na);
    lemma_rat_add_wf(a, rat_neg(a));
    lemma_rat_add_congr(a, a, na, rat_neg(a));
    lemma_rat_eq_trans(r, rat_add(a, na), rat_add(a, rat_neg(a)));
    lemma_rat_add_neg(a);
    lemma_rat_eq_trans(r, rat_add(a, rat_neg(a)), rat_int(0));
}

/// Scaling twice multiplies by the product of the multipliers, carried to
/// results known only up to equality.
pub proof fn lemma_rat_mul_assoc_rel(a: Rat, m: Rat, n: Rat, am: Rat, am_n: Rat, mn: Rat, a_mn: Rat)
    requires
        rat_wf(a),
        rat_wf(m),
        rat_wf(n),
        rat_wf(am),
        rat_wf(am_n),
        rat_wf(mn),
        rat_wf(a_mn),
        rat_eq(am, rat_mul(a, m)),
        rat_eq(am_n, rat_mul(am, n)),
        rat_eq(mn, rat_mul(m, n)),
        rat_eq(a_mn, rat_mul(a, mn)),
    ensures
        rat_eq(am_n, a_mn),
{
    lemma_rat_mul_wf(a, m);
    lemma_rat_mul_wf(m, n);
    lemma_rat_mul_wf(am, n);
    lemma_rat_mul_wf(a, mn);
    lemma_rat_mul_wf(rat_mul(a, m), n);
    lemma_rat_mul_wf(a, rat_mul(m, n));
    lemma_rat_mul_congr(am, rat_mul(a, m), n, n);
    lemma_rat_eq_trans(am_n, rat_mul(am, n), rat_mul(rat_mul(a, m), n));
    lemma_rat_mul_assoc(a, m, n);
    lemma_rat_eq_trans(am_n, rat_mul(rat_mul(a, m), n), rat_mul(a, rat_mul(m, n)));
    lemma_rat_mul_congr(a, a, rat_mul(m, n), mn);
    lemma_rat_eq_trans(am_n, rat_mul(a, rat_mul(m, n)), rat_mul(a, mn));
    lemma_rat_eq_trans(am_n, rat_mul(a, mn), a_mn);
}

/// Multiplying by a one-valued rational gives back the multiplicand,
/// carried to results known only up to equality.
pub proof fn lemma_rat_mul_one_rel(a: Rat, o: Rat, r: Rat)
    requires
        rat_wf(a),
        rat_wf(o),
        rat_wf(r),
        o.n == o.d,
        rat_eq(r, rat_mul(a, o)),
    ensures
        rat_eq(r, a),
{
    lemma_rat_mul_wf(a, o);
    lemma_rat_mul_one(a, o);
    lemma_rat_eq_trans(r, rat_mul(a, o), a);
}

/// Multiplication is commutative, carried to results known only up to
/// equality.
pub proof fn lemma_rat_mul_comm_rel(a: Rat, b: Rat, ab: Rat, ba: Rat)
    requires
        rat_wf(a),
        rat_wf(b),
        rat_wf(ab),
        rat_wf(ba),
        rat_eq(ab, rat_mul(a, b)),
        rat_eq(ba, rat_mul(b, a)),
    ensures
        rat_eq(ab, ba),
{
    lemma_rat_mul_wf(a, b);
    lemma_rat_mul_wf(b, a);
    lemma_rat_mul_comm(a, b);
    lemma_rat_eq_trans(ab, rat_mul(a, b), rat_mul(b, a));
    lemma_rat_eq_trans(ab, rat_mul(b, a), ba);
}

/// Scaling a sum scales each summand, carried to results known only up to
/// equality.
pub proof fn lemma_rat_distrib_sum_rel(
    a: Rat,
    b: Rat,
    m: Rat,
    ab: Rat,
    abm: Rat,
    am: Rat,
    bm: Rat,
    am_bm: Rat,
)
    requires
        rat_wf(a),
        rat_wf(b),
        rat_wf(m),
        rat_wf(ab),
        rat_wf(abm),
        rat_wf(am),
        rat_wf(bm),
        rat_wf(am_bm),
        rat_eq(ab, rat_add(a, b)),
        rat_eq(abm, rat_mul(ab, m)),
        rat_eq(am, rat_mul(a, m)),
        rat_eq(bm, rat_mul(b, m)),
        rat_eq(am_bm, rat_add(am, bm)),
    ensures
        rat_eq(abm, am_bm),
{
    lemma_rat_add_wf(a, b);
    lemma_rat_mul_wf(ab, m);
    lemma_rat_mul_wf(rat_add(a, b), m);
    lemma_rat_mul_wf(a, m);
    lemma_rat_mul_wf(b, m);
    lemma_rat_add_wf(am, bm);
    lemma_rat_add_wf(rat_mul(a, m), rat_mul(b, m));
    lemma_rat_mul_congr(ab, rat_add(a, b), m, m);
    lemma_rat_eq_trans(abm, rat_mul(ab, m), rat_mul(rat_add(a, b), m));
    lemma_rat_mul_distrib_sum(a, b, m);
    lemma_rat_eq_trans(abm, rat_mul(rat_add(a, b), m), rat_add(rat_mul(a, m), rat_mul(b, m)));
    lemma_rat_add_congr(rat_mul(a, m), am, rat_mul(b, m), bm);
    lemma_rat_eq_trans(abm, rat_add(rat_mul(a, m), rat_mul(b, m)), rat_add(am, bm));
    lemma_rat_eq_trans(abm, rat_add(am, bm), am_bm);
}

/// Scaling by a sum of multipliers adds the two scalings, carried to
/// results known only up to equality.
pub proof fn lemma_rat_distrib_mult_rel(
    a: Rat,
    m: Rat,
    n: Rat,
    mn: Rat,
    a_mn: Rat,
    am: Rat,
    an: Rat,
    am_an: Rat,
)
    requires
        rat_wf(a),
        rat_wf(m),
        rat_wf(n),
        rat_wf(mn),
        rat_wf(a_mn),
        rat_wf(am),
        rat_wf(an),
        rat_wf(am_an),
        rat_eq(mn, rat_add(m, n)),
        rat_eq(a_mn, rat_mul(a, mn)),
        rat_eq(am, rat_mul(a, m)),
        rat_eq(an, rat_mul(a, n)),
        rat_eq(am_an, rat_add(am, an)),
    ensures
        rat_eq(a_mn, am_an),
{
    lemma_rat_add_wf(m, n);
    lemma_rat_mul_wf(a, mn);
    lemma_rat_mul_wf(a, rat_add(m, n));
    lemma_rat_mul_wf(a, m);
    lemma_rat_mul_wf(a, n);
    lemma_rat_add_wf(am, an);
    lemma_rat_add_wf(rat_mul(a, m), rat_mul(a, n));
    lemma_rat_mul_congr(a, a, mn, rat_add(m, n));
    lemma_rat_eq_trans(a_mn, rat_mul(a, mn), rat_mul(a, rat_add(m, n)));
    lemma_rat_mul_distrib_mult(a, m, n);
    lemma_rat_eq_trans(a_mn, rat_mul(a, rat_add(m, n)), rat_add(rat_mul(a, m), rat_mul(a, n)));
    lemma_rat_add_congr(rat_mul(a, m), am, rat_mul(a, n), an);
    lemma_rat_eq_trans(a_mn, rat_add(rat_mul(a, m), rat_mul(a, n)), rat_add(am, an));
    lemma_rat_eq_trans(a_mn, rat_add(am, an), am_an);
}

/// Adding to `p` a difference `q - p` lands on `q`, carried to results
/// known only up to equality.
pub proof fn lemma_rat_sub_then_add_rel(p: Rat, q: Rat, d: Rat, r: Rat)
    requires
        rat_wf(p),
        rat_wf(q),
        rat_wf(d),
        rat_wf(r),
        rat_eq(d, rat_sub(q, p)),
        rat_eq(r, rat_add(p, d)),
    ensures
        rat_eq(r, q),
{
    lemma_rat_add_wf(p, d);
    lemma_rat_add_wf(q, rat_neg(p));
    lemma_rat_add_wf(p, rat_sub(q, p));
    lemma_rat_add_congr(p, p, d, rat_sub(q, p));
    lemma_rat_eq_trans(r, rat_add(p, d), rat_add(p, rat_sub(q, p)));
    lemma_rat_sub_then_add(p, q);
    lemma_rat_eq_trans(r, rat_add(p, rat_sub(q, p)), q);
}


/// Rounding can land on only one integer.
pub proof fn lemma_rat_rounds_to_unique(a: Rat, k1: int, k2: int)
    requires
        rat_wf(a),
        rat_rounds_to(a, k1),
        rat_rounds_to(a, k2),
    ensures
        k1 == k2,
{
    assert(k1 == k2) by (nonlinear_arith)
        requires
            a.d > 0,
            rat_rounds_to(a, k1),
            rat_rounds_to(a, k2),
    ;
}

/// Equal summands give a sum equal to a known one: congruence and
/// transitivity in one step.
pub proof fn lemma_rat_add_rel2(x: Rat, x2: Rat, y: Rat, y2: Rat, r: Rat)
    requires
        rat_wf(x),
        rat_wf(x2),
        rat_wf(y),
        rat_wf(y2),
        rat_wf(r),
        rat_eq(x, x2),
        rat_eq(y, y2),
        rat_eq(r, rat_add(x, y)),
    ensures
        rat_eq(r, rat_add(x2, y2)),
{
    lemma_rat_add_wf(x, y);
    lemma_rat_add_wf(x2, y2);
    lemma_rat_add_congr(x, x2, y, y2);
    lemma_rat_eq_trans(r, rat_add(x, y), rat_add(x2, y2));
}

/// Equal operands give a difference equal to a known one.
pub proof fn lemma_rat_sub_rel2(x: Rat, x2: Rat, y: Rat, y2: Rat, r: Rat)
    requires
        rat_wf(x),
        rat_wf(x2),
        rat_wf(y),
        rat_wf(y2),
        rat_wf(r),
        rat_eq(x, x2),
        rat_eq(y, y2),
        rat_eq(r, rat_sub(x, y)),
    ensures
        rat_eq(r, rat_sub(x2, y2)),
{
    lemma_rat_add_wf(x, rat_neg(y));
    lemma_rat_add_wf(x2, rat_neg(y2));
    lemma_rat_sub_congr(x, x2, y, y2);
    lemma_rat_eq_trans(r, rat_sub(x, y), rat_sub(x2, y2));
}

/// Equal operands give a quotient equal to a known one.
pub proof fn lemma_rat_div_rel2(x: Rat, x2: Rat, y: Rat, y2: Rat, r: Rat)
    requires
        rat_wf(x),
        rat_wf(x2),
        rat_wf(y),
        rat_wf(y2),
        rat_wf(r),
        rat_eq(x, x2),
        rat_eq(y, y2),
        y.n != 0,
        rat_eq(r, rat_div(x, y)),
    ensures
        y2.n != 0,
        rat_eq(r, rat_div(x2, y2)),
{
    lemma_rat_div_congr(x, x2, y, y2);
    lemma_rat_div_wf(x, y);
    lemma_rat_div_wf(x2, y2);
    lemma_rat_eq_trans(r, rat_div(x, y), rat_div(x2, y2));
}


/// The middle-exchange rearrangement: `(w + x) + (y + z)` denotes the same
/// rational as `(w + y) + (x + z)`.
pub proof fn lemma_rat_add_exchange(w: Rat, x: Rat, y: Rat, z: Rat)
    requires
        rat_wf(w),
        rat_wf(x),
        rat_wf(y),
        rat_wf(z),
    ensures
        rat_eq(rat_add(rat_add(w, x), rat_add(y, z)), rat_add(rat_add(w, y), rat_add(x, z))),
{
    lemma_rat_add_wf(w, x);
    lemma_rat_add_wf(y, z);
    lemma_rat_add_wf(x, y);
    lemma_rat_add_wf(y, x);
    lemma_rat_add_wf(x, z);
    lemma_rat_add_wf(w, y);
    lemma_rat_add_wf(x, rat_add(y, z));
    lemma_rat_add_wf(rat_add(x, y), z);
    lemma_rat_add_wf(rat_add(y, x), z);
    lemma_rat_add_wf(y, rat_add(x, z));
    lemma_rat_add_wf(w, rat_add(x, rat_add(y, z)));
    lemma_rat_add_wf(w, rat_add(rat_add(x, y), z));
    lemma_rat_add_wf(w, rat_add(rat_add(y, x), z));
    lemma_rat_add_wf(w, rat_add(y, rat_add(x, z)));
    lemma_rat_add_wf(rat_add(w, x), rat_add(y, z));
    lemma_rat_add_wf(rat_add(w, y), rat_add(x, z));
    let whole = rat_add(rat_add(w, x), rat_add(y, z));
    lemma_rat_add_assoc(w, x, rat_add(y, z));
    lemma_rat_add_assoc(x, y, z);
    lemma_rat_add_congr(w, w, rat_add(x, rat_add(y, z)), rat_add(rat_add(x, y), z));
    lemma_rat_eq_trans(
        whole,
        rat_add(w, rat_add(x, rat_add(y, z))),
        rat_add(w, rat_add(rat_add(x, y), z)),
    );
    lemma_rat_add_comm(x, y);
    lemma_rat_add_congr(rat_add(x, y), rat_add(y, x), z, z);
    lemma_rat_add_congr(w, w, rat_add(rat_add(x, y), z), rat_add(rat_add(y, x), z));
    lemma_rat_eq_trans(
        whole,
        rat_add(w, rat_add(rat_add(x, y), z)),
        rat_add(w, rat_add(rat_add(y, x), z)),
    );
    lemma_rat_add_assoc(y, x, z);
    lemma_rat_add_congr(w, w, rat_add(rat_add(y, x), z), rat_add(y, rat_add(x, z)));
    lemma_rat_eq_trans(
        whole,
        rat_add(w, rat_add(rat_add(y, x), z)),
        rat_add(w, rat_add(y, rat_add(x, z))),
    );
    lemma_rat_add_assoc(w, y, rat_add(x, z));
    lemma_rat_eq_trans(
        whole,
        rat_add(w, rat_add(y, rat_add(x, z))),
        rat_add(rat_add(w, y), rat_add(x, z)),
    );
}

/// Multiplying into a three-term sum multiplies each term.
pub proof fn lemma_rat_mul_linear(s: Rat, u: Rat, v: Rat, w: Rat)
    requires
        rat_wf(s),
        rat_wf(u),
        rat_wf(v),
        rat_wf(w),
    ensures
        rat_eq(
            rat_mul(s, rat_add(rat_add(u, v), w)),
            rat_add(rat_add(rat_mul(s, u), rat_mul(s, v)), rat_mul(s, w)),
        ),
{
    lemma_rat_add_wf(u, v);
    lemma_rat_add_wf(rat_add(u, v), w);
    lemma_rat_mul_wf(s, rat_add(rat_add(u, v), w));
    lemma_rat_mul_wf(s, rat_add(u, v));
    lemma_rat_mul_wf(s, w);
    lemma_rat_mul_wf(s, u);
    lemma_rat_mul_wf(s, v);
    lemma_rat_add_wf(rat_mul(s, u), rat_mul(s, v));
    lemma_rat_add_wf(rat_mul(s, rat_add(u, v)), rat_mul(s, w));
    lemma_rat_add_wf(rat_add(rat_mul(s, u), rat_mul(s, v)), rat_mul(s, w));
    lemma_rat_mul_distrib_mult(s, rat_add(u, v), w);
    lemma_rat_mul_distrib_mult(s, u, v);
    lemma_rat_add_congr(
        rat_mul(s, rat_add(u, v)),
        rat_add(rat_mul(s, u), rat_mul(s, v)),
        rat_mul(s, w),
        rat_mul(s, w),
    );
    lemma_rat_eq_trans(
        rat_mul(s, rat_add(rat_add(u, v), w)),
        rat_add(rat_mul(s, rat_add(u, v)), rat_mul(s, w)),
        rat_add(rat_add(rat_mul(s, u), rat_mul(s, v)), rat_mul(s, w)),
    );
}

} // verus!
