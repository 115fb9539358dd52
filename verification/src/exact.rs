//! The executable rational type backing every grid value.
//!
//! `Real` holds an arbitrary-precision rational of the `num-rational` crate.
//! The two specification names `ratio_num` and `ratio_den` stand for the
//! numerator and denominator that such a rational stores; the crate keeps
//! every stored rational in reduced form with a positive denominator, which
//! is why each wrapper below may promise `r@.d > 0`.

use vstd::prelude::*;

use crate::rat::{
    lemma_abs_cong, lemma_add_cong, lemma_div_cong, lemma_eq_trans, lemma_le_cong,
    lemma_sign_cong, q_abs, q_add, q_div, q_eq, q_frac, q_int, q_le, q_mul, q_neg, q_sub, Q,
};

verus! {

broadcast use crate::rat::qwf;

#[verifier::external_type_specification]
#[verifier::external_body]
#[verifier::reject_recursive_types(T)]
pub struct ExRatio<T>(num_rational::Ratio<T>);

#[verifier::external_type_specification]
#[verifier::external_body]
pub struct ExBigInt(num_bigint::BigInt);

/// The numerator stored by a rational of the outside crate.
pub uninterp spec fn ratio_num(r: num_rational::BigRational) -> int;

/// The denominator stored by a rational of the outside crate.
pub uninterp spec fn ratio_den(r: num_rational::BigRational) -> int;

/// An exact rational number; the value of one grid node.
pub struct Real {
    r: num_rational::BigRational,
}

impl View for Real {
    type V = Q;

    closed spec fn view(&self) -> Q {
        Q { n: ratio_num(self.r), d: ratio_den(self.r) }
    }
}

/// Rounding of a non-negative `n / d` to the nearest integer, halves away
/// from zero: `floor((2n + d) / 2d)`.
pub open spec fn q_round(a: Q) -> int {
    (2 * a.n + a.d) / (2 * a.d)
}

// ---------------------------------------------------------------------------
// Trusted wrappers around `num-rational`.
// ---------------------------------------------------------------------------

/// Relies on `Ratio::from_integer`: stores exactly `x / 1`.
#[verifier::external_body]
fn int_real(x: i64) -> (r: Real)
    ensures
        ratio_num(r.r) == x as int,
        ratio_den(r.r) == 1,
{
    Real { r: num_rational::BigRational::from_integer(num_bigint::BigInt::from(x)) }
}

/// Relies on `Ratio::from_integer`: stores exactly `x / 1`.
#[verifier::external_body]
fn usize_real(x: usize) -> (r: Real)
    ensures
        ratio_num(r.r) == x as int,
        ratio_den(r.r) == 1,
{
    Real { r: num_rational::BigRational::from_integer(num_bigint::BigInt::from(x)) }
}

/// Relies on `Ratio::new`: reduces `n / d` and keeps the denominator
/// positive; panics only on a zero denominator.
#[verifier::external_body]
fn ratio_real(n: i64, d: i64) -> (r: Real)
    requires
        d != 0,
    ensures
        q_eq(r@, q_frac(n as int, d as int)),
        ratio_den(r.r) > 0,
{
    Real { r: num_rational::BigRational::new(num_bigint::BigInt::from(n), num_bigint::BigInt::from(d)) }
}

/// Relies on `Add for &Ratio`: exact rational addition, reduced result.
#[verifier::external_body]
fn add_real(a: &Real, b: &Real) -> (r: Real)
    ensures
        q_eq(r@, q_add(a@, b@)),
        r@.d > 0,
{
    Real { r: &a.r + &b.r }
}

/// Relies on `Sub for &Ratio`: exact rational subtraction, reduced result.
#[verifier::external_body]
fn sub_real(a: &Real, b: &Real) -> (r: Real)
    ensures
        q_eq(r@, q_sub(a@, b@)),
        r@.d > 0,
{
    Real { r: &a.r - &b.r }
}

/// Relies on `Mul for &Ratio`: exact rational multiplication, reduced result.
#[verifier::external_body]
fn mul_real(a: &Real, b: &Real) -> (r: Real)
    ensures
        q_eq(r@, q_mul(a@, b@)),
        r@.d > 0,
{
    Real { r: &a.r * &b.r }
}

/// Relies on `Div for &Ratio`: exact rational division; panics only when
/// the divisor is zero, which the precondition rules out.
#[verifier::external_body]
fn div_real(a: &Real, b: &Real) -> (r: Real)
    requires
        b@.n != 0,
    ensures
        q_eq(r@, q_div(a@, b@)),
        r@.d > 0,
{
    Real { r: &a.r / &b.r }
}

/// Relies on `Signed::abs` for `Ratio`: the absolute value.
#[verifier::external_body]
fn abs_real(a: &Real) -> (r: Real)
    requires
        a@.d > 0,
    ensures
        q_eq(r@, q_abs(a@)),
        r@.d > 0,
{
    Real { r: num_traits::Signed::abs(&a.r) }
}

/// Relies on `Ord for Ratio`: comparison by mathematical value.
#[verifier::external_body]
fn le_real(a: &Real, b: &Real) -> (res: bool)
    requires
        a@.d > 0,
        b@.d > 0,
    ensures
        res == q_le(a@, b@),
{
    a.r <= b.r
}

/// Relies on `PartialEq for Ratio`: equality of mathematical values.
#[verifier::external_body]
fn eq_real(a: &Real, b: &Real) -> (res: bool)
    requires
        a@.d > 0,
        b@.d > 0,
    ensures
        res == q_eq(a@, b@),
{
    a.r == b.r
}

/// Relies on `Clone for Ratio`: an identical copy.
#[verifier::external_body]
fn dup_real(a: &Real) -> (r: Real)
    ensures
        r@ == a@,
{
    Real { r: a.r.clone() }
}

/// Relies on `Ratio::round` (nearest integer, halves away from zero),
/// `Ratio::to_integer` and `ToPrimitive::to_usize`; the preconditions keep
/// the rounded value inside `usize`, so `unwrap` cannot panic.
#[verifier::external_body]
fn round_real(a: &Real) -> (res: usize)
    requires
        a@.d > 0,
        a@.n >= 0,
        q_round(a@) <= usize::MAX,
    ensures
        res == q_round(a@),
{
    let rounded = a.r.round().to_integer();
    num_traits::ToPrimitive::to_usize(&rounded).unwrap()
}

/// Relies on `Clone for Ratio`: hands an identical copy of the stored
/// rational to unverified callers (for display or conversion).
#[verifier::external_body]
fn ratio_of(a: &Real) -> (r: num_rational::BigRational)
    ensures
        ratio_num(r) == a@.n,
        ratio_den(r) == a@.d,
{
    a.r.clone()
}

// ---------------------------------------------------------------------------
// Verified surface of `Real`.
// ---------------------------------------------------------------------------

impl Real {
    /// The integer `x` as an exact rational.
    pub fn from_int(x: i64) -> (r: Real)
        ensures
            r@ == q_int(x as int),
    {
        int_real(x)
    }

    /// The index `x` as an exact rational.
    pub fn from_usize(x: usize) -> (r: Real)
        ensures
            r@ == q_int(x as int),
    {
        usize_real(x)
    }

    /// The fraction `n / d` as an exact rational.
    pub fn from_ratio(n: i64, d: i64) -> (r: Real)
        requires
            d != 0,
        ensures
            q_eq(r@, q_frac(n as int, d as int)),
            r@.d > 0,
    {
        ratio_real(n, d)
    }

    /// An identical copy.
    pub fn dup(&self) -> (r: Real)
        ensures
            r@ == self@,
    {
        dup_real(self)
    }

    /// Whether `self` and `o` hold the same rational value.
    pub fn value_eq(&self, o: &Real) -> (res: bool)
        requires
            self@.d > 0,
            o@.d > 0,
        ensures
            res == q_eq(self@, o@),
    {
        eq_real(self, o)
    }

    /// Whether `self <= o` as rational values.
    pub fn value_le(&self, o: &Real) -> (res: bool)
        requires
            self@.d > 0,
            o@.d > 0,
        ensures
            res == q_le(self@, o@),
    {
        le_real(self, o)
    }

    /// The stored rational, for unverified display or conversion.
    pub fn to_ratio(&self) -> (r: num_rational::BigRational)
        ensures
            ratio_num(r) == self@.n,
            ratio_den(r) == self@.d,
    {
        ratio_of(self)
    }
}

// ---------------------------------------------------------------------------
// Ghost-directed arithmetic: each helper performs one exact operation and
// carries its result to a caller-chosen specification term.
// ---------------------------------------------------------------------------

pub(crate) fn add_t(a: &Real, b: &Real, gx: Ghost<Q>, gy: Ghost<Q>) -> (r: Real)
    requires
        q_eq(a@, gx@),
        q_eq(b@, gy@),
        a@.d > 0,
        b@.d > 0,
        gx@.d > 0,
        gy@.d > 0,
    ensures
        q_eq(r@, q_add(gx@, gy@)),
        r@.d > 0,
{
    let r = add_real(a, b);
    proof {
        lemma_add_cong(a@, gx@, b@, gy@);
        lemma_eq_trans(r@, q_add(a@, b@), q_add(gx@, gy@));
    }
    r
}

pub(crate) fn sub_t(a: &Real, b: &Real, gx: Ghost<Q>, gy: Ghost<Q>) -> (r: Real)
    requires
        q_eq(a@, gx@),
        q_eq(b@, gy@),
        a@.d > 0,
        b@.d > 0,
        gx@.d > 0,
        gy@.d > 0,
    ensures
        q_eq(r@, q_sub(gx@, gy@)),
        r@.d > 0,
{
    let r = sub_real(a, b);
    proof {
        lemma_add_cong(a@, gx@, b@, gy@);
        lemma_eq_trans(r@, q_sub(a@, b@), q_sub(gx@, gy@));
    }
    r
}

pub(crate) fn mul_t(a: &Real, b: &Real, gx: Ghost<Q>, gy: Ghost<Q>) -> (r: Real)
    requires
        q_eq(a@, gx@),
        q_eq(b@, gy@),
        a@.d > 0,
        b@.d > 0,
        gx@.d > 0,
        gy@.d > 0,
    ensures
        q_eq(r@, q_mul(gx@, gy@)),
        r@.d > 0,
{
    let r = mul_real(a, b);
    proof {
        lemma_add_cong(a@, gx@, b@, gy@);
        lemma_eq_trans(r@, q_mul(a@, b@), q_mul(gx@, gy@));
    }
    r
}

pub(crate) fn div_t(a: &Real, b: &Real, gx: Ghost<Q>, gy: Ghost<Q>) -> (r: Real)
    requires
        q_eq(a@, gx@),
        q_eq(b@, gy@),
        a@.d > 0,
        b@.d > 0,
        gx@.d > 0,
        gy@.d > 0,
        gy@.n != 0,
    ensures
        q_eq(r@, q_div(gx@, gy@)),
        r@.d > 0,
{
    proof {
        assert(b@.n != 0) by (nonlinear_arith)
            requires
                b@.n * gy@.d == gy@.n * b@.d,
                gy@.n != 0,
                b@.d > 0,
                gy@.d > 0,
        ;
    }
    let r = div_real(a, b);
    proof {
        lemma_div_cong(a@, gx@, b@, gy@);
        lemma_eq_trans(r@, q_div(a@, b@), q_div(gx@, gy@));
    }
    r
}

pub(crate) fn abs_t(a: &Real, gx: Ghost<Q>) -> (r: Real)
    requires
        q_eq(a@, gx@),
        a@.d > 0,
        gx@.d > 0,
    ensures
        q_eq(r@, q_abs(gx@)),
        r@.d > 0,
{
    let r = abs_real(a);
    proof {
        lemma_abs_cong(a@, gx@);
        lemma_eq_trans(r@, q_abs(a@), q_abs(gx@));
    }
    r
}

pub(crate) fn neg_t(a: &Real, gx: Ghost<Q>) -> (r: Real)
    requires
        q_eq(a@, gx@),
        a@.d > 0,
        gx@.d > 0,
    ensures
        q_eq(r@, q_neg(gx@)),
        r@.d > 0,
{
    let z = Real::from_int(0);
    let r = sub_t(&z, a, Ghost(q_int(0)), gx);
    proof {
        assert(q_sub(q_int(0), gx@) == q_neg(gx@));
    }
    r
}

/// Rounding is determined by the value, not by the representative pair.
pub proof fn lemma_round_cong(a: Q, b: Q)
    requires
        q_eq(a, b),
        a.d > 0,
        b.d > 0,
    ensures
        q_round(a) == q_round(b),
{
    let x = 2 * a.n + a.d;
    let da = 2 * a.d;
    let y = 2 * b.n + b.d;
    let db = 2 * b.d;
    let qa = x / da;
    let ra = x % da;
    let qb = y / db;
    let rb = y % db;
    vstd::arithmetic::div_mod::lemma_fundamental_div_mod(x, da);
    vstd::arithmetic::div_mod::lemma_fundamental_div_mod(y, db);
    vstd::arithmetic::div_mod::lemma_mod_division_less_than_divisor(x, da);
    vstd::arithmetic::div_mod::lemma_mod_division_less_than_divisor(y, db);
    assert(x * db == y * da) by (nonlinear_arith)
        requires
            a.n * b.d == b.n * a.d,
            x == 2 * a.n + a.d,
            da == 2 * a.d,
            y == 2 * b.n + b.d,
            db == 2 * b.d,
    ;
    assert(x * db == (da * db) * qa + ra * db) by (nonlinear_arith)
        requires
            x == da * qa + ra,
    ;
    assert(y * da == (da * db) * qb + rb * da) by (nonlinear_arith)
        requires
            y == db * qb + rb,
    ;
    assert(0 <= ra * db < da * db && 0 <= rb * da < da * db && da * db > 0) by (nonlinear_arith)
        requires
            0 <= ra < da,
            0 <= rb < db,
            da > 0,
            db > 0,
    ;
    assert(qa == qb) by (nonlinear_arith)
        requires
            (da * db) * qa + ra * db == (da * db) * qb + rb * da,
            0 <= ra * db < da * db,
            0 <= rb * da < da * db,
            da * db > 0,
    ;
}

/// Round a non-negative value to the nearest grid index, halves up.
pub(crate) fn round_t(a: &Real, gx: Ghost<Q>) -> (res: usize)
    requires
        q_eq(a@, gx@),
        a@.d > 0,
        gx@.d > 0,
        gx@.n >= 0,
        q_round(gx@) <= usize::MAX,
    ensures
        res == q_round(gx@),
{
    proof {
        lemma_sign_cong(a@, gx@);
        lemma_round_cong(a@, gx@);
    }
    round_real(a)
}

pub(crate) fn le_t(a: &Real, b: &Real, gx: Ghost<Q>, gy: Ghost<Q>) -> (res: bool)
    requires
        q_eq(a@, gx@),
        q_eq(b@, gy@),
        a@.d > 0,
        b@.d > 0,
        gx@.d > 0,
        gy@.d > 0,
    ensures
        res == q_le(gx@, gy@),
{
    let res = le_real(a, b);
    proof {
        lemma_le_cong(a@, gx@, b@, gy@);
    }
    res
}

} // verus!
