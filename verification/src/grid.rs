//! Vectors of grid values and their pointwise specification operations.

use vstd::prelude::*;

use crate::exact::{add_t, div_t, mul_t, sub_t, Real};
use crate::rat::{
    lemma_add_wf, lemma_div_wf, lemma_mul_wf, lemma_sub_wf, q_add, q_div, q_eq, q_int, q_mul,
    q_sub, qs_eq, qs_wf, Q,
};

verus! {

broadcast use crate::rat::qwf;

/// The rational values of a sequence of grid nodes.
pub open spec fn vals(s: Seq<Real>) -> Seq<Q> {
    Seq::new(s.len(), |i: int| s[i]@)
}

/// Pointwise sum of two equally long sequences.
pub open spec fn sadd(a: Seq<Q>, b: Seq<Q>) -> Seq<Q> {
    Seq::new(a.len(), |i: int| q_add(a[i], b[i]))
}

/// Pointwise difference of two equally long sequences.
pub open spec fn ssub(a: Seq<Q>, b: Seq<Q>) -> Seq<Q> {
    Seq::new(a.len(), |i: int| q_sub(a[i], b[i]))
}

/// Pointwise product with the integer `k`.
pub open spec fn sscale(k: int, a: Seq<Q>) -> Seq<Q> {
    Seq::new(a.len(), |i: int| q_mul(q_int(k), a[i]))
}

/// Pointwise quotient by the integer `k`.
pub open spec fn sdivk(a: Seq<Q>, k: int) -> Seq<Q> {
    Seq::new(a.len(), |i: int| q_div(a[i], q_int(k)))
}

/// Unfolds `vals`: pointwise facts about `vals(s)` become facts about `s[i]@`.
pub proof fn lemma_vals_open(s: Seq<Real>, t: Seq<Q>)
    requires
        qs_eq(vals(s), t),
        qs_wf(vals(s)),
    ensures
        s.len() == t.len(),
        forall|i: int| 0 <= i < s.len() ==> q_eq(#[trigger] s[i]@, t[i]),
        forall|i: int| 0 <= i < s.len() ==> (#[trigger] s[i]@).d > 0,
{
    assert forall|i: int| 0 <= i < s.len() implies q_eq(#[trigger] s[i]@, t[i]) && s[i]@.d > 0 by {
        assert(vals(s)[i] == s[i]@);
    }
}

/// Folds `vals`: pointwise facts about `s[i]@` become facts about `vals(s)`.
pub proof fn lemma_vals_fold(s: Seq<Real>, t: Seq<Q>)
    requires
        s.len() == t.len(),
        forall|i: int| 0 <= i < s.len() ==> q_eq(#[trigger] s[i]@, t[i]),
        forall|i: int| 0 <= i < s.len() ==> (#[trigger] s[i]@).d > 0,
    ensures
        qs_eq(vals(s), t),
        qs_wf(vals(s)),
{
    assert forall|i: int| 0 <= i < vals(s).len() implies q_eq(#[trigger] vals(s)[i], t[i])
        && vals(s)[i].d > 0 by {
        assert(vals(s)[i] == s[i]@);
    }
}

pub proof fn lemma_sadd_wf(a: Seq<Q>, b: Seq<Q>)
    requires
        qs_wf(a),
        qs_wf(b),
        a.len() == b.len(),
    ensures
        qs_wf(sadd(a, b)),
        qs_wf(ssub(a, b)),
{
    assert forall|i: int| 0 <= i < a.len() implies (#[trigger] sadd(a, b)[i]).d > 0 by {
        lemma_add_wf(a[i], b[i]);
    }
    assert forall|i: int| 0 <= i < a.len() implies (#[trigger] ssub(a, b)[i]).d > 0 by {
        lemma_sub_wf(a[i], b[i]);
    }
}

pub proof fn lemma_sscale_wf(k: int, a: Seq<Q>)
    requires
        qs_wf(a),
    ensures
        qs_wf(sscale(k, a)),
{
    assert forall|i: int| 0 <= i < a.len() implies (#[trigger] sscale(k, a)[i]).d > 0 by {
        lemma_mul_wf(q_int(k), a[i]);
    }
}

pub proof fn lemma_sdivk_wf(a: Seq<Q>, k: int)
    requires
        qs_wf(a),
        k != 0,
    ensures
        qs_wf(sdivk(a, k)),
{
    assert forall|i: int| 0 <= i < a.len() implies (#[trigger] sdivk(a, k)[i]).d > 0 by {
        lemma_div_wf(a[i], q_int(k));
    }
}

// ---------------------------------------------------------------------------
// Executable vector helpers.
// ---------------------------------------------------------------------------

/// A vector of `n` exact zeros.
#[verifier::loop_isolation(false)]
pub fn zeros(n: usize) -> (v: Vec<Real>)
    ensures
        v@.len() == n,
        forall|i: int| 0 <= i < n ==> vals(v@)[i] == q_int(0),
        qs_wf(vals(v@)),
{
    let mut v: Vec<Real> = Vec::new();
    for k in 0..n
        invariant
            v@.len() == k,
            forall|i: int| 0 <= i < k ==> (#[trigger] v@[i]@) == q_int(0),
    {
        v.push(Real::from_int(0));
    }
    proof {
        assert forall|i: int| 0 <= i < n implies (#[trigger] vals(v@)[i]) == q_int(0) by {
            assert(vals(v@)[i] == v@[i]@);
        }
    }
    v
}

pub(crate) enum PlusMinus {
    Plus,
    Minus,
}

/// Pointwise sum or difference carried to the ghost targets `gx`, `gy`.
#[verifier::loop_isolation(false)]
pub(crate) fn vcomb_t(
    op: PlusMinus,
    a: &Vec<Real>,
    b: &Vec<Real>,
    gx: Ghost<Seq<Q>>,
    gy: Ghost<Seq<Q>>,
) -> (r: Vec<Real>)
    requires
        a@.len() == b@.len(),
        qs_eq(vals(a@), gx@),
        qs_eq(vals(b@), gy@),
        qs_wf(vals(a@)),
        qs_wf(vals(b@)),
        qs_wf(gx@),
        qs_wf(gy@),
    ensures
        r@.len() == a@.len(),
        op is Plus ==> qs_eq(vals(r@), sadd(gx@, gy@)),
        op is Minus ==> qs_eq(vals(r@), ssub(gx@, gy@)),
        qs_wf(vals(r@)),
{
    proof {
        lemma_vals_open(a@, gx@);
        lemma_vals_open(b@, gy@);
    }
    let n = a.len();
    let mut r: Vec<Real> = Vec::new();
    for k in 0..n
        invariant
            r@.len() == k,
            forall|i: int| 0 <= i < k ==> (#[trigger] r@[i]@).d > 0,
            op is Plus ==> forall|i: int|
                0 <= i < k ==> q_eq(#[trigger] r@[i]@, sadd(gx@, gy@)[i]),
            op is Minus ==> forall|i: int|
                0 <= i < k ==> q_eq(#[trigger] r@[i]@, ssub(gx@, gy@)[i]),
    {
        let e = match op {
            PlusMinus::Plus => add_t(&a[k], &b[k], Ghost(gx@[k as int]), Ghost(gy@[k as int])),
            PlusMinus::Minus => sub_t(&a[k], &b[k], Ghost(gx@[k as int]), Ghost(gy@[k as int])),
        };
        r.push(e);
    }
    proof {
        if op is Plus {
            lemma_vals_fold(r@, sadd(gx@, gy@));
        } else {
            lemma_vals_fold(r@, ssub(gx@, gy@));
        }
    }
    r
}

/// Pointwise sum, carried to the ghost targets.
pub(crate) fn vadd_t(a: &Vec<Real>, b: &Vec<Real>, gx: Ghost<Seq<Q>>, gy: Ghost<Seq<Q>>) -> (r:
    Vec<Real>)
    requires
        a@.len() == b@.len(),
        qs_eq(vals(a@), gx@),
        qs_eq(vals(b@), gy@),
        qs_wf(vals(a@)),
        qs_wf(vals(b@)),
        qs_wf(gx@),
        qs_wf(gy@),
    ensures
        r@.len() == a@.len(),
        qs_eq(vals(r@), sadd(gx@, gy@)),
        qs_wf(vals(r@)),
{
    vcomb_t(PlusMinus::Plus, a, b, gx, gy)
}

/// Pointwise difference, carried to the ghost targets.
pub(crate) fn vsub_t(a: &Vec<Real>, b: &Vec<Real>, gx: Ghost<Seq<Q>>, gy: Ghost<Seq<Q>>) -> (r:
    Vec<Real>)
    requires
        a@.len() == b@.len(),
        qs_eq(vals(a@), gx@),
        qs_eq(vals(b@), gy@),
        qs_wf(vals(a@)),
        qs_wf(vals(b@)),
        qs_wf(gx@),
        qs_wf(gy@),
    ensures
        r@.len() == a@.len(),
        qs_eq(vals(r@), ssub(gx@, gy@)),
        qs_wf(vals(r@)),
{
    vcomb_t(PlusMinus::Minus, a, b, gx, gy)
}

/// Pointwise product with the integer `k`, carried to the ghost target.
#[verifier::loop_isolation(false)]
pub(crate) fn vscale_t(k: i64, a: &Vec<Real>, gx: Ghost<Seq<Q>>) -> (r: Vec<Real>)
    requires
        qs_eq(vals(a@), gx@),
        qs_wf(vals(a@)),
        qs_wf(gx@),
    ensures
        r@.len() == a@.len(),
        qs_eq(vals(r@), sscale(k as int, gx@)),
        qs_wf(vals(r@)),
{
    proof {
        lemma_vals_open(a@, gx@);
    }
    let n = a.len();
    let kr = Real::from_int(k);
    let mut r: Vec<Real> = Vec::new();
    for j in 0..n
        invariant
            r@.len() == j,
            forall|i: int| 0 <= i < j ==> (#[trigger] r@[i]@).d > 0,
            forall|i: int| 0 <= i < j ==> q_eq(#[trigger] r@[i]@, sscale(k as int, gx@)[i]),
    {
        r.push(mul_t(&kr, &a[j], Ghost(q_int(k as int)), Ghost(gx@[j as int])));
    }
    proof {
        lemma_vals_fold(r@, sscale(k as int, gx@));
    }
    r
}

/// Pointwise quotient by the nonzero integer `k`, carried to the ghost target.
#[verifier::loop_isolation(false)]
pub(crate) fn vdivk_t(a: &Vec<Real>, k: i64, gx: Ghost<Seq<Q>>) -> (r: Vec<Real>)
    requires
        k != 0,
        qs_eq(vals(a@), gx@),
        qs_wf(vals(a@)),
        qs_wf(gx@),
    ensures
        r@.len() == a@.len(),
        qs_eq(vals(r@), sdivk(gx@, k as int)),
        qs_wf(vals(r@)),
{
    proof {
        lemma_vals_open(a@, gx@);
    }
    let n = a.len();
    let kr = Real::from_int(k);
    let mut r: Vec<Real> = Vec::new();
    for j in 0..n
        invariant
            r@.len() == j,
            forall|i: int| 0 <= i < j ==> (#[trigger] r@[i]@).d > 0,
            forall|i: int| 0 <= i < j ==> q_eq(#[trigger] r@[i]@, sdivk(gx@, k as int)[i]),
    {
        r.push(div_t(&a[j], &kr, Ghost(gx@[j as int]), Ghost(q_int(k as int))));
    }
    proof {
        lemma_vals_fold(r@, sdivk(gx@, k as int));
    }
    r
}

} // verus!
