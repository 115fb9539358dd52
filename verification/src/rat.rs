//! Rational numbers at the specification level.
//!
//! A rational is a pair `n / d` of mathematical integers. All contracts in
//! this crate keep the invariant `d > 0`. Two rationals are compared by
//! cross-multiplication, so `q_eq` is equality of the represented values,
//! not of the pairs.

use vstd::prelude::*;

verus! {

/// The value `n / d`.
pub ghost struct Q {
    pub n: int,
    pub d: int,
}

/// The integer `k` as a rational.
pub open spec fn q_int(k: int) -> Q {
    Q { n: k, d: 1 }
}

/// The fraction `n / d` (meaningful when `d > 0`).
pub open spec fn q_frac(n: int, d: int) -> Q {
    Q { n, d }
}

/// Value equality: `a.n / a.d == b.n / b.d` by cross-multiplication.
pub open spec fn q_eq(a: Q, b: Q) -> bool {
    a.n * b.d == b.n * a.d
}

/// Value order (valid when both denominators are positive).
pub open spec fn q_le(a: Q, b: Q) -> bool {
    a.n * b.d <= b.n * a.d
}

/// Strict value order (valid when both denominators are positive).
pub open spec fn q_lt(a: Q, b: Q) -> bool {
    a.n * b.d < b.n * a.d
}

pub open spec fn q_add(a: Q, b: Q) -> Q {
    Q { n: a.n * b.d + b.n * a.d, d: a.d * b.d }
}

pub open spec fn q_sub(a: Q, b: Q) -> Q {
    Q { n: a.n * b.d - b.n * a.d, d: a.d * b.d }
}

pub open spec fn q_mul(a: Q, b: Q) -> Q {
    Q { n: a.n * b.n, d: a.d * b.d }
}

/// Quotient; the sign of the divisor's numerator is moved into the
/// numerator of the result so that a positive denominator stays positive.
pub open spec fn q_div(a: Q, b: Q) -> Q {
    if b.n >= 0 {
        Q { n: a.n * b.d, d: a.d * b.n }
    } else {
        Q { n: -(a.n * b.d), d: -(a.d * b.n) }
    }
}

pub open spec fn q_neg(a: Q) -> Q {
    Q { n: -a.n, d: a.d }
}

pub open spec fn q_abs(a: Q) -> Q {
    Q { n: if a.n >= 0 { a.n } else { -a.n }, d: a.d }
}

// ---------------------------------------------------------------------------
// Kernel facts over plain integers, discharged by the nonlinear solver.
// ---------------------------------------------------------------------------

proof fn k_mul_pos(a: int, b: int) by (nonlinear_arith)
    requires
        a > 0,
        b > 0,
    ensures
        a * b > 0,
{
}

proof fn k_eq_trans(an: int, ad: int, bn: int, bd: int, cn: int, cd: int) by (nonlinear_arith)
    requires
        an * bd == bn * ad,
        bn * cd == cn * bd,
        bd != 0,
    ensures
        an * cd == cn * ad,
{
}

proof fn k_cross_scale(an: int, ad: int, xn: int, xd: int, s: int, t: int) by (nonlinear_arith)
    requires
        an * xd == xn * ad,
    ensures
        (an * s) * (xd * t) == (xn * t) * (ad * s),
{
}

proof fn k_add_cong(
    an: int, ad: int, xn: int, xd: int, bn: int, bd: int, yn: int, yd: int,
)
    requires
        an * xd == xn * ad,
        bn * yd == yn * bd,
    ensures
        (an * bd + bn * ad) * (xd * yd) == (xn * yd + yn * xd) * (ad * bd),
        (an * bd - bn * ad) * (xd * yd) == (xn * yd - yn * xd) * (ad * bd),
{
    k_cross_scale(an, ad, xn, xd, bd, yd);
    k_cross_scale(bn, bd, yn, yd, ad, xd);
    assert((bn * ad) * (yd * xd) == (bn * ad) * (xd * yd)) by (nonlinear_arith);
    assert((yn * xd) * (bd * ad) == (yn * xd) * (ad * bd)) by (nonlinear_arith);
    assert((an * bd + bn * ad) * (xd * yd) == (an * bd) * (xd * yd) + (bn * ad) * (xd * yd))
        by (nonlinear_arith);
    assert((xn * yd + yn * xd) * (ad * bd) == (xn * yd) * (ad * bd) + (yn * xd) * (ad * bd))
        by (nonlinear_arith);
    assert((an * bd - bn * ad) * (xd * yd) == (an * bd) * (xd * yd) - (bn * ad) * (xd * yd))
        by (nonlinear_arith);
    assert((xn * yd - yn * xd) * (ad * bd) == (xn * yd) * (ad * bd) - (yn * xd) * (ad * bd))
        by (nonlinear_arith);
}

proof fn k_mul_cong(
    an: int, ad: int, xn: int, xd: int, bn: int, bd: int, yn: int, yd: int,
) by (nonlinear_arith)
    requires
        an * xd == xn * ad,
        bn * yd == yn * bd,
    ensures
        (an * bn) * (xd * yd) == (xn * yn) * (ad * bd),
{
}

proof fn k_div_cong(
    an: int, ad: int, xn: int, xd: int, bn: int, bd: int, yn: int, yd: int,
) by (nonlinear_arith)
    requires
        an * xd == xn * ad,
        bn * yd == yn * bd,
    ensures
        (an * bd) * (xd * yn) == (xn * yd) * (ad * bn),
{
}

proof fn k_sign_cong(bn: int, bd: int, yn: int, yd: int) by (nonlinear_arith)
    requires
        bn * yd == yn * bd,
        bd > 0,
        yd > 0,
    ensures
        (bn > 0) <==> (yn > 0),
        (bn == 0) <==> (yn == 0),
{
}

proof fn k_le_cong_one(
    an: int, ad: int, xn: int, xd: int, bn: int, bd: int, yn: int, yd: int,
)
    requires
        an * xd == xn * ad,
        bn * yd == yn * bd,
        ad > 0,
        bd > 0,
        xd > 0,
        yd > 0,
        an * bd <= bn * ad,
    ensures
        xn * yd <= yn * xd,
{
    assert((an * bd) * (xd * yd) <= (bn * ad) * (xd * yd)) by (nonlinear_arith)
        requires
            an * bd <= bn * ad,
            xd > 0,
            yd > 0,
    ;
    assert((an * bd) * (xd * yd) == (xn * yd) * (ad * bd)) by (nonlinear_arith)
        requires
            an * xd == xn * ad,
    ;
    assert((bn * ad) * (xd * yd) == (yn * xd) * (ad * bd)) by (nonlinear_arith)
        requires
            bn * yd == yn * bd,
    ;
    assert(xn * yd <= yn * xd) by (nonlinear_arith)
        requires
            (xn * yd) * (ad * bd) <= (yn * xd) * (ad * bd),
            ad > 0,
            bd > 0,
    ;
}

// ---------------------------------------------------------------------------
// Well-formedness of compound terms (ambient lemmas).
// ---------------------------------------------------------------------------

pub broadcast proof fn lemma_add_wf(a: Q, b: Q)
    requires
        a.d > 0,
        b.d > 0,
    ensures
        (#[trigger] q_add(a, b)).d > 0,
{
    k_mul_pos(a.d, b.d);
}

pub broadcast proof fn lemma_sub_wf(a: Q, b: Q)
    requires
        a.d > 0,
        b.d > 0,
    ensures
        (#[trigger] q_sub(a, b)).d > 0,
{
    k_mul_pos(a.d, b.d);
}

pub broadcast proof fn lemma_mul_wf(a: Q, b: Q)
    requires
        a.d > 0,
        b.d > 0,
    ensures
        (#[trigger] q_mul(a, b)).d > 0,
{
    k_mul_pos(a.d, b.d);
}

pub broadcast proof fn lemma_div_wf(a: Q, b: Q)
    requires
        a.d > 0,
        b.d > 0,
        b.n != 0,
    ensures
        (#[trigger] q_div(a, b)).d > 0,
{
    if b.n > 0 {
        k_mul_pos(a.d, b.n);
    } else {
        k_mul_pos(a.d, -b.n);
        assert(a.d * -b.n == -(a.d * b.n)) by (nonlinear_arith);
    }
}

pub broadcast group qwf {
    lemma_add_wf,
    lemma_sub_wf,
    lemma_mul_wf,
    lemma_div_wf,
}

// ---------------------------------------------------------------------------
// The q_eq relation: an equivalence compatible with every operation.
// ---------------------------------------------------------------------------

/// Values equal under `q_eq` have numerators of the same sign.
pub proof fn lemma_sign_cong(a: Q, b: Q)
    requires
        q_eq(a, b),
        a.d > 0,
        b.d > 0,
    ensures
        (a.n > 0) <==> (b.n > 0),
        (a.n == 0) <==> (b.n == 0),
        (a.n >= 0) <==> (b.n >= 0),
{
    k_sign_cong(a.n, a.d, b.n, b.d);
}

pub proof fn lemma_eq_trans(a: Q, b: Q, c: Q)
    requires
        q_eq(a, b),
        q_eq(b, c),
        b.d != 0,
    ensures
        q_eq(a, c),
{
    k_eq_trans(a.n, a.d, b.n, b.d, c.n, c.d);
}

pub proof fn lemma_add_cong(a: Q, x: Q, b: Q, y: Q)
    requires
        q_eq(a, x),
        q_eq(b, y),
    ensures
        q_eq(q_add(a, b), q_add(x, y)),
        q_eq(q_sub(a, b), q_sub(x, y)),
        q_eq(q_mul(a, b), q_mul(x, y)),
{
    k_add_cong(a.n, a.d, x.n, x.d, b.n, b.d, y.n, y.d);
    k_mul_cong(a.n, a.d, x.n, x.d, b.n, b.d, y.n, y.d);
}

pub proof fn lemma_div_cong(a: Q, x: Q, b: Q, y: Q)
    requires
        q_eq(a, x),
        q_eq(b, y),
        a.d > 0,
        b.d > 0,
        x.d > 0,
        y.d > 0,
    ensures
        q_eq(q_div(a, b), q_div(x, y)),
{
    k_div_cong(a.n, a.d, x.n, x.d, b.n, b.d, y.n, y.d);
    k_sign_cong(b.n, b.d, y.n, y.d);
    if b.n < 0 {
        assert((-(a.n * b.d)) * (-(x.d * y.n)) == (a.n * b.d) * (x.d * y.n))
            by (nonlinear_arith);
        assert((-(x.n * y.d)) * (-(a.d * b.n)) == (x.n * y.d) * (a.d * b.n))
            by (nonlinear_arith);
    }
}

pub proof fn lemma_neg_cong(a: Q, x: Q)
    requires
        q_eq(a, x),
    ensures
        q_eq(q_neg(a), q_neg(x)),
{
    assert((-a.n) * x.d == -(a.n * x.d)) by (nonlinear_arith);
    assert((-x.n) * a.d == -(x.n * a.d)) by (nonlinear_arith);
}

pub proof fn lemma_abs_cong(a: Q, x: Q)
    requires
        q_eq(a, x),
        a.d > 0,
        x.d > 0,
    ensures
        q_eq(q_abs(a), q_abs(x)),
{
    k_sign_cong(a.n, a.d, x.n, x.d);
    if a.n < 0 {
        lemma_neg_cong(a, x);
    }
}

pub proof fn lemma_le_cong(a: Q, x: Q, b: Q, y: Q)
    requires
        q_eq(a, x),
        q_eq(b, y),
        a.d > 0,
        b.d > 0,
        x.d > 0,
        y.d > 0,
    ensures
        q_le(a, b) <==> q_le(x, y),
        q_lt(a, b) <==> q_lt(x, y),
        q_eq(a, b) <==> q_eq(x, y),
{
    if q_le(a, b) {
        k_le_cong_one(a.n, a.d, x.n, x.d, b.n, b.d, y.n, y.d);
    }
    if q_le(x, y) {
        k_le_cong_one(x.n, x.d, a.n, a.d, y.n, y.d, b.n, b.d);
    }
    if q_le(b, a) {
        k_le_cong_one(b.n, b.d, y.n, y.d, a.n, a.d, x.n, x.d);
    }
    if q_le(y, x) {
        k_le_cong_one(y.n, y.d, b.n, b.d, x.n, x.d, a.n, a.d);
    }
}

// ---------------------------------------------------------------------------
// Algebraic identities.
// ---------------------------------------------------------------------------

/// Multiplying by a value equal to zero gives a value equal to zero.
pub proof fn lemma_mul_zero(a: Q, b: Q)
    requires
        q_eq(a, q_int(0)),
    ensures
        q_eq(q_mul(a, b), q_int(0)),
        q_eq(q_mul(b, a), q_int(0)),
{
    assert(a.n * 1 == 0 * a.d);
    assert(a.n * b.n == 0 && b.n * a.n == 0) by (nonlinear_arith)
        requires
            a.n == 0,
    ;
}

/// Adding a value equal to zero leaves the value unchanged.
pub proof fn lemma_add_zero(a: Q, z: Q)
    requires
        q_eq(z, q_int(0)),
    ensures
        q_eq(q_add(a, z), a),
        q_eq(q_add(z, a), a),
        q_eq(q_sub(a, z), a),
{
    assert(z.n * 1 == 0 * z.d);
    assert((a.n * z.d + z.n * a.d) * a.d == a.n * (a.d * z.d)
        && (z.n * a.d + a.n * z.d) * a.d == a.n * (z.d * a.d)
        && (a.n * z.d - z.n * a.d) * a.d == a.n * (a.d * z.d)) by (nonlinear_arith)
        requires
            z.n == 0,
    ;
}

/// A sum of fractions over one positive divisor is the fraction of the sum.
pub proof fn lemma_div_add(x: Q, y: Q, s: Q)
    requires
        s.n > 0,
    ensures
        q_eq(q_add(q_div(x, s), q_div(y, s)), q_div(q_add(x, y), s)),
{
    // Division by `s` is multiplication by the reciprocal pair, literally.
    let r = Q { n: s.d, d: s.n };
    assert(q_div(x, s) == q_mul(x, r));
    assert(q_div(y, s) == q_mul(y, r));
    assert(q_div(q_add(x, y), s) == q_mul(q_add(x, y), r));
    lemma_mul_distrib(x, y, r);
}

/// A positive value divided by itself is one.
pub proof fn lemma_div_self(s: Q)
    requires
        s.n > 0,
    ensures
        q_eq(q_div(s, s), q_int(1)),
{
    assert((s.n * s.d) * 1 == 1 * (s.d * s.n)) by (nonlinear_arith);
}

pub proof fn lemma_add_comm(a: Q, b: Q)
    ensures
        q_eq(q_add(a, b), q_add(b, a)),
{
    assert((a.n * b.d + b.n * a.d) * (b.d * a.d) == (b.n * a.d + a.n * b.d) * (a.d * b.d))
        by (nonlinear_arith);
}

#[verifier::rlimit(50)]
pub proof fn lemma_add_assoc(a: Q, b: Q, c: Q)
    ensures
        q_eq(q_add(q_add(a, b), c), q_add(a, q_add(b, c))),
{
    let wl = a.d * (b.d * c.d);
    let wr = (a.d * b.d) * c.d;
    assert(((a.n * b.d + b.n * a.d) * c.d + c.n * (a.d * b.d)) * wl == ((a.n * b.d) * c.d) * wl + ((
    b.n * a.d) * c.d) * wl + (c.n * (a.d * b.d)) * wl) by (nonlinear_arith);
    assert(((a.n * b.d) * c.d) * wl == (a.n * (b.d * c.d)) * wr) by (nonlinear_arith)
        requires
            wl == a.d * (b.d * c.d),
            wr == (a.d * b.d) * c.d,
    ;
    assert(((b.n * a.d) * c.d) * wl == ((b.n * c.d) * a.d) * wr) by (nonlinear_arith)
        requires
            wl == a.d * (b.d * c.d),
            wr == (a.d * b.d) * c.d,
    ;
    assert((c.n * (a.d * b.d)) * wl == ((c.n * b.d) * a.d) * wr) by (nonlinear_arith)
        requires
            wl == a.d * (b.d * c.d),
            wr == (a.d * b.d) * c.d,
    ;
    assert((a.n * (b.d * c.d) + (b.n * c.d + c.n * b.d) * a.d) * wr == (a.n * (b.d * c.d)) * wr + ((
    b.n * c.d) * a.d) * wr + ((c.n * b.d) * a.d) * wr) by (nonlinear_arith);
}

/// Multiplication distributes over addition.
#[verifier::rlimit(50)]
pub proof fn lemma_mul_distrib(x: Q, y: Q, p: Q)
    ensures
        q_eq(q_mul(q_add(x, y), p), q_add(q_mul(x, p), q_mul(y, p))),
{
    let w = (x.d * p.d) * (y.d * p.d);
    let v = (x.d * y.d) * p.d;
    assert(((x.n * y.d + y.n * x.d) * p.n) * w == ((x.n * y.d) * p.n) * w + ((y.n * x.d) * p.n) * w)
        by (nonlinear_arith);
    assert(((x.n * y.d) * p.n) * w == ((x.n * p.n) * (y.d * p.d)) * v) by (nonlinear_arith)
        requires
            w == (x.d * p.d) * (y.d * p.d),
            v == (x.d * y.d) * p.d,
    ;
    assert(((y.n * x.d) * p.n) * w == ((y.n * p.n) * (x.d * p.d)) * v) by (nonlinear_arith)
        requires
            w == (x.d * p.d) * (y.d * p.d),
            v == (x.d * y.d) * p.d,
    ;
    assert(((x.n * p.n) * (y.d * p.d) + (y.n * p.n) * (x.d * p.d)) * v == ((x.n * p.n) * (y.d
        * p.d)) * v + ((y.n * p.n) * (x.d * p.d)) * v) by (nonlinear_arith);
}

/// Sums of pairs can be regrouped: `(a+b) + (c+e) = (a+c) + (b+e)`.
pub proof fn lemma_add_rearrange(a: Q, b: Q, c: Q, e: Q)
    requires
        a.d > 0,
        b.d > 0,
        c.d > 0,
        e.d > 0,
    ensures
        q_eq(q_add(q_add(a, b), q_add(c, e)), q_add(q_add(a, c), q_add(b, e))),
{
    broadcast use qwf;

    let x = q_add(q_add(a, b), q_add(c, e));
    lemma_add_assoc(a, b, q_add(c, e));
    lemma_add_assoc(b, c, e);
    lemma_add_comm(b, c);
    lemma_add_cong(q_add(b, c), q_add(c, b), e, e);
    lemma_add_assoc(c, b, e);
    lemma_eq_trans(q_add(b, q_add(c, e)), q_add(q_add(b, c), e), q_add(q_add(c, b), e));
    lemma_eq_trans(q_add(b, q_add(c, e)), q_add(q_add(c, b), e), q_add(c, q_add(b, e)));
    lemma_add_cong(a, a, q_add(b, q_add(c, e)), q_add(c, q_add(b, e)));
    lemma_add_assoc(a, c, q_add(b, e));
    lemma_eq_trans(x, q_add(a, q_add(b, q_add(c, e))), q_add(a, q_add(c, q_add(b, e))));
    lemma_eq_trans(x, q_add(a, q_add(c, q_add(b, e))), q_add(q_add(a, c), q_add(b, e)));
}

/// A value plus its negation is zero.
pub proof fn lemma_add_neg(a: Q)
    ensures
        q_eq(q_add(a, q_neg(a)), q_int(0)),
{
    assert(a.n * a.d + (-a.n) * a.d == 0) by (nonlinear_arith);
}

/// Telescoping: `(a - c) + (b - a) = b - c`.
pub proof fn lemma_telescope(a: Q, b: Q, c: Q)
    requires
        a.d > 0,
        b.d > 0,
        c.d > 0,
    ensures
        q_eq(q_add(q_sub(a, c), q_sub(b, a)), q_sub(b, c)),
{
    broadcast use qwf;

    // `q_sub(x, y)` is literally `q_add(x, q_neg(y))`.
    assert((-c.n) * a.d == -(c.n * a.d)) by (nonlinear_arith);
    assert((-a.n) * b.d == -(a.n * b.d)) by (nonlinear_arith);
    assert((-c.n) * b.d == -(c.n * b.d)) by (nonlinear_arith);
    assert(q_sub(a, c) == q_add(a, q_neg(c)));
    assert(q_sub(b, a) == q_add(b, q_neg(a)));
    assert(q_sub(b, c) == q_add(b, q_neg(c)));
    let s = q_add(q_add(a, q_neg(c)), q_add(b, q_neg(a)));
    // (a + -c) + (b + -a) = ((a + -c) + b) + -a
    lemma_add_assoc(q_add(a, q_neg(c)), b, q_neg(a));
    // (a + -c) + b = (a + b) + -c ... build step by step:
    lemma_add_comm(q_add(a, q_neg(c)), b);
    lemma_add_assoc(b, a, q_neg(c));
    // so (a + -c) + b ~ b + (a + -c) == (b + a) + -c (assoc reversed)
    lemma_eq_trans(
        q_add(q_add(a, q_neg(c)), b),
        q_add(b, q_add(a, q_neg(c))),
        q_add(q_add(b, a), q_neg(c)),
    );
    // ((a + -c) + b) + -a ~ ((b + a) + -c) + -a
    lemma_add_cong(
        q_add(q_add(a, q_neg(c)), b),
        q_add(q_add(b, a), q_neg(c)),
        q_neg(a),
        q_neg(a),
    );
    lemma_eq_trans(
        s,
        q_add(q_add(q_add(a, q_neg(c)), b), q_neg(a)),
        q_add(q_add(q_add(b, a), q_neg(c)), q_neg(a)),
    );
    // ((b + a) + -c) + -a ~ (b + a) + (-c + -a) ~ (b + a) + (-a + -c)
    lemma_add_assoc(q_add(b, a), q_neg(c), q_neg(a));
    lemma_add_comm(q_neg(c), q_neg(a));
    lemma_add_cong(q_add(b, a), q_add(b, a), q_add(q_neg(c), q_neg(a)), q_add(q_neg(a), q_neg(c)));
    lemma_eq_trans(
        q_add(q_add(q_add(b, a), q_neg(c)), q_neg(a)),
        q_add(q_add(b, a), q_add(q_neg(c), q_neg(a))),
        q_add(q_add(b, a), q_add(q_neg(a), q_neg(c))),
    );
    lemma_eq_trans(
        s,
        q_add(q_add(q_add(b, a), q_neg(c)), q_neg(a)),
        q_add(q_add(b, a), q_add(q_neg(a), q_neg(c))),
    );
    // (b + a) + (-a + -c) ~ b + (a + (-a + -c)) ~ b + ((a + -a) + -c) ~ b + -c
    lemma_add_assoc(b, a, q_add(q_neg(a), q_neg(c)));
    lemma_add_assoc(a, q_neg(a), q_neg(c));
    lemma_add_neg(a);
    lemma_add_zero(q_neg(c), q_add(a, q_neg(a)));
    lemma_eq_trans(
        q_add(a, q_add(q_neg(a), q_neg(c))),
        q_add(q_add(a, q_neg(a)), q_neg(c)),
        q_neg(c),
    );
    lemma_add_cong(b, b, q_add(a, q_add(q_neg(a), q_neg(c))), q_neg(c));
    lemma_eq_trans(
        q_add(q_add(b, a), q_add(q_neg(a), q_neg(c))),
        q_add(b, q_add(a, q_add(q_neg(a), q_neg(c)))),
        q_add(b, q_neg(c)),
    );
    lemma_eq_trans(
        s,
        q_add(q_add(b, a), q_add(q_neg(a), q_neg(c))),
        q_add(b, q_neg(c)),
    );
}

// ---------------------------------------------------------------------------
// Signs. With positive denominators, the sign of a value is the sign of its
// numerator, and `q_le(q_int(0), a)` unfolds to `0 <= a.n`.
// ---------------------------------------------------------------------------

pub proof fn lemma_add_nonneg(a: Q, b: Q)
    requires
        a.d > 0,
        b.d > 0,
        a.n >= 0,
        b.n >= 0,
    ensures
        q_add(a, b).n >= 0,
        a.n > 0 || b.n > 0 ==> q_add(a, b).n > 0,
{
    assert(a.n * b.d + b.n * a.d >= 0 && (a.n > 0 || b.n > 0 ==> a.n * b.d + b.n * a.d > 0))
        by (nonlinear_arith)
        requires
            a.d > 0,
            b.d > 0,
            a.n >= 0,
            b.n >= 0,
    ;
}

pub proof fn lemma_mul_sign(a: Q, b: Q)
    requires
        a.d > 0,
        b.d > 0,
    ensures
        a.n >= 0 && b.n >= 0 ==> q_mul(a, b).n >= 0,
        a.n > 0 && b.n > 0 ==> q_mul(a, b).n > 0,
        a.n > 0 && b.n > 0 ==> q_div(a, b).n > 0,
{
    assert((a.n >= 0 && b.n >= 0 ==> a.n * b.n >= 0) && (a.n > 0 && b.n > 0 ==> a.n * b.n > 0)
        && (a.n > 0 && b.d > 0 ==> a.n * b.d > 0)) by (nonlinear_arith);
}

pub proof fn lemma_sq_nonneg(a: Q)
    ensures
        q_mul(a, a).n >= 0,
{
    assert(a.n * a.n >= 0) by (nonlinear_arith);
}

// ---------------------------------------------------------------------------
// Sequences of rationals, compared pointwise.
// ---------------------------------------------------------------------------

/// Every entry has a positive denominator.
pub open spec fn qs_wf(s: Seq<Q>) -> bool {
    forall|i: int| 0 <= i < s.len() ==> (#[trigger] s[i]).d > 0
}

/// Pointwise value equality of two sequences.
pub open spec fn qs_eq(a: Seq<Q>, b: Seq<Q>) -> bool {
    &&& a.len() == b.len()
    &&& forall|i: int| 0 <= i < a.len() ==> q_eq(#[trigger] a[i], #[trigger] b[i])
}

pub proof fn lemma_qs_trans(a: Seq<Q>, b: Seq<Q>, c: Seq<Q>)
    requires
        qs_eq(a, b),
        qs_eq(b, c),
        qs_wf(b),
    ensures
        qs_eq(a, c),
{
    assert forall|i: int| 0 <= i < a.len() implies q_eq(#[trigger] a[i], #[trigger] c[i]) by {
        lemma_eq_trans(a[i], b[i], c[i]);
    }
}

} // verus!
