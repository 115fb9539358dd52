//! Spatial difference schemes.
//!
//! Each scheme maps the field `u` to a per-node increment approximating
//! `-v * delta_t * du/dx`. Nodes without a full stencil get an increment of
//! exactly zero. The specification functions `sp_*` state each node's value
//! in closed form; the executable functions are proved to match them.

use vstd::prelude::*;

use crate::exact::{abs_t, add_t, div_t, le_t, mul_t, sub_t, Real};
use crate::grid::{lemma_vals_fold, lemma_vals_open, vals};
use crate::rat::{
    lemma_abs_cong, lemma_add_cong, lemma_add_nonneg, lemma_div_cong, lemma_le_cong,
    lemma_mul_sign, lemma_sq_nonneg, q_abs, q_add, q_div, q_eq, q_frac, q_int, q_le, q_mul, q_sub,
    qs_eq, qs_wf, Q,
};
use crate::simulation::{desc_wf, p_of, p_t, DescV, Descriptor};
use crate::SpatialScheme;

verus! {

broadcast use crate::rat::qwf;

// ---------------------------------------------------------------------------
// Specification formulas.
// ---------------------------------------------------------------------------

/// One-sided difference towards the right: `(u[i+1] - u[i]) / dx`.
pub open spec fn sp_dr(u: Seq<Q>, i: int, dx: Q) -> Q {
    q_div(q_sub(u[i + 1], u[i]), dx)
}

/// One-sided difference towards the left: `(u[i] - u[i-1]) / dx`.
pub open spec fn sp_dl(u: Seq<Q>, i: int, dx: Q) -> Q {
    q_div(q_sub(u[i], u[i - 1]), dx)
}

/// Central first derivative: `(u[i+1] - u[i-1]) / (2 dx)`.
pub open spec fn sp_grad1(u: Seq<Q>, i: int, dx: Q) -> Q {
    q_div(q_sub(u[i + 1], u[i - 1]), q_mul(q_int(2), dx))
}

/// Central second derivative halved: `(u[i+1] - 2 u[i] + u[i-1]) / (2 dx^2)`.
pub open spec fn sp_grad2(u: Seq<Q>, i: int, dx: Q) -> Q {
    q_div(q_add(q_sub(u[i + 1], q_mul(q_int(2), u[i])), u[i - 1]), q_mul(q_mul(q_int(2), dx), dx))
}

/// Forward-difference increments: valid for `0 <= i < n-1`.
pub open spec fn sp_forward(u: Seq<Q>, d: DescV) -> Seq<Q> {
    Seq::new(
        u.len(),
        |i: int|
            if 0 <= i < u.len() - 1 {
                q_mul(sp_dr(u, i, d.delta_x), p_of(d))
            } else {
                q_int(0)
            },
    )
}

/// Backward-difference increments: valid for `1 <= i < n`.
pub open spec fn sp_backward(u: Seq<Q>, d: DescV) -> Seq<Q> {
    Seq::new(
        u.len(),
        |i: int|
            if 1 <= i < u.len() {
                q_mul(sp_dl(u, i, d.delta_x), p_of(d))
            } else {
                q_int(0)
            },
    )
}

/// Upwind: backward differences when `0 <= v`, else forward differences.
pub open spec fn sp_upwind(u: Seq<Q>, d: DescV) -> Seq<Q> {
    if q_le(q_int(0), d.vel) {
        sp_backward(u, d)
    } else {
        sp_forward(u, d)
    }
}

/// Central increments: valid for `1 <= i < n-1`.
pub open spec fn sp_central(u: Seq<Q>, d: DescV) -> Seq<Q> {
    Seq::new(
        u.len(),
        |i: int|
            if 1 <= i < u.len() - 1 {
                q_mul(sp_grad1(u, i, d.delta_x), p_of(d))
            } else {
                q_int(0)
            },
    )
}

/// Lax-Wendroff increments: `grad1 * p + grad2 * p * p`, valid for
/// `1 <= i < n-1`.
pub open spec fn sp_lax_wendroff(u: Seq<Q>, d: DescV) -> Seq<Q> {
    Seq::new(
        u.len(),
        |i: int|
            if 1 <= i < u.len() - 1 {
                q_add(
                    q_mul(sp_grad1(u, i, d.delta_x), p_of(d)),
                    q_mul(q_mul(sp_grad2(u, i, d.delta_x), p_of(d)), p_of(d)),
                )
            } else {
                q_int(0)
            },
    )
}

// ---------------------------------------------------------------------------
// WENO: a weighted blend of three candidate stencils, valid for
// `3 <= i < n-3`. The smoothness indicators are the Jiang-Shu sums of
// squares; `eps = 1/1000000` keeps every divisor strictly positive.
// ---------------------------------------------------------------------------

pub open spec fn sp_eps() -> Q {
    q_frac(1, 1000000)
}

pub open spec fn sp_w_u1(u: Seq<Q>, i: int, dx: Q) -> Q {
    q_add(
        q_sub(q_mul(q_frac(1, 3), sp_dl(u, i - 2, dx)), q_mul(q_frac(7, 6), sp_dl(u, i - 1, dx))),
        q_mul(q_frac(11, 6), sp_dl(u, i, dx)),
    )
}

pub open spec fn sp_w_u2(u: Seq<Q>, i: int, dx: Q) -> Q {
    q_add(
        q_add(q_mul(q_frac(-1, 6), sp_dl(u, i - 1, dx)), q_mul(q_frac(5, 6), sp_dl(u, i, dx))),
        q_mul(q_frac(1, 3), sp_dl(u, i + 1, dx)),
    )
}

pub open spec fn sp_w_u3(u: Seq<Q>, i: int, dx: Q) -> Q {
    q_sub(
        q_add(q_mul(q_frac(1, 3), sp_dl(u, i, dx)), q_mul(q_frac(5, 6), sp_dl(u, i + 1, dx))),
        q_mul(q_frac(1, 6), sp_dl(u, i + 2, dx)),
    )
}

pub open spec fn sp_w_s1(u: Seq<Q>, i: int, dx: Q) -> Q {
    let t1 = q_add(q_sub(sp_dl(u, i - 2, dx), q_mul(q_int(2), sp_dl(u, i - 1, dx))), sp_dl(u, i, dx));
    let t2 = q_add(
        q_sub(sp_dl(u, i - 2, dx), q_mul(q_int(4), sp_dl(u, i - 1, dx))),
        q_mul(q_int(3), sp_dl(u, i, dx)),
    );
    q_add(q_mul(q_frac(13, 12), q_mul(t1, t1)), q_mul(q_frac(1, 4), q_mul(t2, t2)))
}

pub open spec fn sp_w_s2(u: Seq<Q>, i: int, dx: Q) -> Q {
    let t3 = q_add(q_sub(sp_dl(u, i - 1, dx), q_mul(q_int(2), sp_dl(u, i, dx))), sp_dl(u, i + 1, dx));
    let t4 = q_sub(sp_dl(u, i - 1, dx), sp_dl(u, i + 1, dx));
    q_add(q_mul(q_frac(13, 12), q_mul(t3, t3)), q_mul(q_frac(1, 4), q_mul(t4, t4)))
}

pub open spec fn sp_w_s3(u: Seq<Q>, i: int, dx: Q) -> Q {
    let t5 = q_add(q_sub(sp_dl(u, i, dx), q_mul(q_int(2), sp_dl(u, i + 1, dx))), sp_dl(u, i + 2, dx));
    let t6 = q_add(
        q_sub(q_mul(q_int(3), sp_dl(u, i, dx)), q_mul(q_int(4), sp_dl(u, i + 1, dx))),
        sp_dl(u, i + 2, dx),
    );
    q_add(q_mul(q_frac(13, 12), q_mul(t5, t5)), q_mul(q_frac(1, 4), q_mul(t6, t6)))
}

pub open spec fn sp_w_a1(u: Seq<Q>, i: int, dx: Q) -> Q {
    q_div(q_frac(1, 10), q_mul(q_add(sp_w_s1(u, i, dx), sp_eps()), q_add(sp_w_s1(u, i, dx), sp_eps())))
}

pub open spec fn sp_w_a2(u: Seq<Q>, i: int, dx: Q) -> Q {
    q_div(q_frac(6, 10), q_mul(q_add(sp_w_s2(u, i, dx), sp_eps()), q_add(sp_w_s2(u, i, dx), sp_eps())))
}

pub open spec fn sp_w_a3(u: Seq<Q>, i: int, dx: Q) -> Q {
    q_div(q_frac(3, 10), q_mul(q_add(sp_w_s3(u, i, dx), sp_eps()), q_add(sp_w_s3(u, i, dx), sp_eps())))
}

pub open spec fn sp_w_asum(u: Seq<Q>, i: int, dx: Q) -> Q {
    q_add(q_add(sp_w_a1(u, i, dx), sp_w_a2(u, i, dx)), sp_w_a3(u, i, dx))
}

/// The three normalized WENO weights.
pub open spec fn sp_w_w1(u: Seq<Q>, i: int, dx: Q) -> Q {
    q_div(sp_w_a1(u, i, dx), sp_w_asum(u, i, dx))
}

pub open spec fn sp_w_w2(u: Seq<Q>, i: int, dx: Q) -> Q {
    q_div(sp_w_a2(u, i, dx), sp_w_asum(u, i, dx))
}

pub open spec fn sp_w_w3(u: Seq<Q>, i: int, dx: Q) -> Q {
    q_div(sp_w_a3(u, i, dx), sp_w_asum(u, i, dx))
}

pub open spec fn sp_weno_inc(u: Seq<Q>, i: int, d: DescV) -> Q {
    q_mul(
        q_add(
            q_add(
                q_mul(sp_w_w1(u, i, d.delta_x), sp_w_u1(u, i, d.delta_x)),
                q_mul(sp_w_w2(u, i, d.delta_x), sp_w_u2(u, i, d.delta_x)),
            ),
            q_mul(sp_w_w3(u, i, d.delta_x), sp_w_u3(u, i, d.delta_x)),
        ),
        p_of(d),
    )
}

/// WENO increments: valid for `3 <= i < n-3`.
pub open spec fn sp_weno(u: Seq<Q>, d: DescV) -> Seq<Q> {
    Seq::new(
        u.len(),
        |i: int|
            if 3 <= i < u.len() - 3 {
                sp_weno_inc(u, i, d)
            } else {
                q_int(0)
            },
    )
}

/// Every WENO divisor is strictly positive: the smoothness indicators are
/// sums of squares, `eps` is positive, and the unnormalized weights and
/// their sum are quotients of positive values.
pub proof fn lemma_weno_pos(u: Seq<Q>, i: int, dx: Q)
    requires
        qs_wf(u),
        dx.d > 0,
        dx.n > 0,
        3 <= i < u.len() - 3,
    ensures
        sp_w_s1(u, i, dx).d > 0 && sp_w_s1(u, i, dx).n >= 0,
        sp_w_s2(u, i, dx).d > 0 && sp_w_s2(u, i, dx).n >= 0,
        sp_w_s3(u, i, dx).d > 0 && sp_w_s3(u, i, dx).n >= 0,
        q_add(sp_w_s1(u, i, dx), sp_eps()).n > 0,
        q_add(sp_w_s2(u, i, dx), sp_eps()).n > 0,
        q_add(sp_w_s3(u, i, dx), sp_eps()).n > 0,
        q_mul(q_add(sp_w_s1(u, i, dx), sp_eps()), q_add(sp_w_s1(u, i, dx), sp_eps())).n > 0,
        q_mul(q_add(sp_w_s2(u, i, dx), sp_eps()), q_add(sp_w_s2(u, i, dx), sp_eps())).n > 0,
        q_mul(q_add(sp_w_s3(u, i, dx), sp_eps()), q_add(sp_w_s3(u, i, dx), sp_eps())).n > 0,
        sp_w_a1(u, i, dx).d > 0 && sp_w_a1(u, i, dx).n > 0,
        sp_w_a2(u, i, dx).d > 0 && sp_w_a2(u, i, dx).n > 0,
        sp_w_a3(u, i, dx).d > 0 && sp_w_a3(u, i, dx).n > 0,
        sp_w_asum(u, i, dx).d > 0 && sp_w_asum(u, i, dx).n > 0,
{
    let lm2 = sp_dl(u, i - 2, dx);
    let lm1 = sp_dl(u, i - 1, dx);
    let l0 = sp_dl(u, i, dx);
    let lp1 = sp_dl(u, i + 1, dx);
    let lp2 = sp_dl(u, i + 2, dx);
    let t1 = q_add(q_sub(lm2, q_mul(q_int(2), lm1)), l0);
    let t2 = q_add(q_sub(lm2, q_mul(q_int(4), lm1)), q_mul(q_int(3), l0));
    let t3 = q_add(q_sub(lm1, q_mul(q_int(2), l0)), lp1);
    let t4 = q_sub(lm1, lp1);
    let t5 = q_add(q_sub(l0, q_mul(q_int(2), lp1)), lp2);
    let t6 = q_add(q_sub(q_mul(q_int(3), l0), q_mul(q_int(4), lp1)), lp2);
    lemma_sq_nonneg(t1);
    lemma_sq_nonneg(t2);
    lemma_sq_nonneg(t3);
    lemma_sq_nonneg(t4);
    lemma_sq_nonneg(t5);
    lemma_sq_nonneg(t6);
    lemma_mul_sign(q_frac(13, 12), q_mul(t1, t1));
    lemma_mul_sign(q_frac(1, 4), q_mul(t2, t2));
    lemma_mul_sign(q_frac(13, 12), q_mul(t3, t3));
    lemma_mul_sign(q_frac(1, 4), q_mul(t4, t4));
    lemma_mul_sign(q_frac(13, 12), q_mul(t5, t5));
    lemma_mul_sign(q_frac(1, 4), q_mul(t6, t6));
    lemma_add_nonneg(q_mul(q_frac(13, 12), q_mul(t1, t1)), q_mul(q_frac(1, 4), q_mul(t2, t2)));
    lemma_add_nonneg(q_mul(q_frac(13, 12), q_mul(t3, t3)), q_mul(q_frac(1, 4), q_mul(t4, t4)));
    lemma_add_nonneg(q_mul(q_frac(13, 12), q_mul(t5, t5)), q_mul(q_frac(1, 4), q_mul(t6, t6)));
    lemma_add_nonneg(sp_w_s1(u, i, dx), sp_eps());
    lemma_add_nonneg(sp_w_s2(u, i, dx), sp_eps());
    lemma_add_nonneg(sp_w_s3(u, i, dx), sp_eps());
    lemma_mul_sign(q_add(sp_w_s1(u, i, dx), sp_eps()), q_add(sp_w_s1(u, i, dx), sp_eps()));
    lemma_mul_sign(q_add(sp_w_s2(u, i, dx), sp_eps()), q_add(sp_w_s2(u, i, dx), sp_eps()));
    lemma_mul_sign(q_add(sp_w_s3(u, i, dx), sp_eps()), q_add(sp_w_s3(u, i, dx), sp_eps()));
    lemma_mul_sign(
        q_frac(1, 10),
        q_mul(q_add(sp_w_s1(u, i, dx), sp_eps()), q_add(sp_w_s1(u, i, dx), sp_eps())),
    );
    lemma_mul_sign(
        q_frac(6, 10),
        q_mul(q_add(sp_w_s2(u, i, dx), sp_eps()), q_add(sp_w_s2(u, i, dx), sp_eps())),
    );
    lemma_mul_sign(
        q_frac(3, 10),
        q_mul(q_add(sp_w_s3(u, i, dx), sp_eps()), q_add(sp_w_s3(u, i, dx), sp_eps())),
    );
    lemma_add_nonneg(sp_w_a1(u, i, dx), sp_w_a2(u, i, dx));
    lemma_add_nonneg(q_add(sp_w_a1(u, i, dx), sp_w_a2(u, i, dx)), sp_w_a3(u, i, dx));
}

// ---------------------------------------------------------------------------
// ENO: adaptive stencil selection, valid for `3 <= i < n-3`. Ties in the
// smoothness comparisons are broken by `<=`, exactly as stated below.
// ---------------------------------------------------------------------------

/// Undivided first difference: `(u[j+1] - u[j]) / dx`.
pub open spec fn sp_d1h(u: Seq<Q>, j: int, dx: Q) -> Q {
    q_div(q_sub(u[j + 1], u[j]), dx)
}

/// Second difference: `(d1h(j) - d1h(j-1)) / (2 dx)`.
pub open spec fn sp_d2m(u: Seq<Q>, j: int, dx: Q) -> Q {
    q_div(q_sub(sp_d1h(u, j, dx), sp_d1h(u, j - 1, dx)), q_mul(q_int(2), dx))
}

/// Third difference: `(d2m(j+1) - d2m(j)) / (3 dx)`.
pub open spec fn sp_d3h(u: Seq<Q>, j: int, dx: Q) -> Q {
    q_div(q_sub(sp_d2m(u, j + 1, dx), sp_d2m(u, j, dx)), q_mul(q_int(3), dx))
}

pub open spec fn sp_eno_inc(u: Seq<Q>, i: int, d: DescV) -> Q {
    let dx = d.delta_x;
    let b1 = q_le(q_int(0), d.vel);
    let k = if b1 { i - 1 } else { i };
    let b2 = q_le(q_abs(sp_d2m(u, k, dx)), q_abs(sp_d2m(u, k + 1, dx)));
    let l = if b2 { k - 1 } else { k };
    let b3 = q_le(q_abs(sp_d3h(u, l, dx)), q_abs(sp_d3h(u, l + 1, dx)));
    let q1 = q_div(q_sub(u[i], u[i - 1]), dx);
    let q2 = if b2 {
        q_div(q_add(q_sub(u[i], q_mul(q_int(2), u[i - 1])), u[i - 2]), q_mul(q_int(2), dx))
    } else {
        q_div(q_add(q_sub(u[i + 1], q_mul(q_int(2), u[i])), u[i - 1]), q_mul(q_int(2), dx))
    };
    let q3 = if b2 && b3 {
        q_div(
            q_sub(q_add(q_sub(u[i], q_mul(q_int(3), u[i - 1])), q_mul(q_int(3), u[i - 2])), u[i - 3]),
            q_mul(q_int(3), dx),
        )
    } else if b2 && !b3 {
        q_div(
            q_sub(q_add(q_sub(u[i + 1], q_mul(q_int(3), u[i])), q_mul(q_int(3), u[i - 1])), u[i - 2]),
            q_mul(q_int(3), dx),
        )
    } else if !b2 && b3 {
        q_div(
            q_sub(q_add(q_sub(u[i + 1], q_mul(q_int(3), u[i])), q_mul(q_int(3), u[i - 1])), u[i - 2]),
            q_mul(q_int(-6), dx),
        )
    } else {
        q_div(
            q_sub(q_add(q_sub(u[i + 2], q_mul(q_int(3), u[i + 1])), q_mul(q_int(3), u[i])), u[i - 1]),
            q_mul(q_int(-6), dx),
        )
    };
    q_mul(q_add(q_add(q1, q2), q3), p_of(d))
}

/// ENO increments: valid for `3 <= i < n-3`.
pub open spec fn sp_eno(u: Seq<Q>, d: DescV) -> Seq<Q> {
    Seq::new(
        u.len(),
        |i: int|
            if 3 <= i < u.len() - 3 {
                sp_eno_inc(u, i, d)
            } else {
                q_int(0)
            },
    )
}

/// `(u[j+1] - u[j]) / dx` as an executable value.
fn d1h_t(u: &Vec<Real>, j: usize, desc: &Descriptor) -> (r: Real)
    requires
        desc_wf(desc@),
        qs_wf(vals(u@)),
        j < u@.len() - 1,
    ensures
        q_eq(r@, sp_d1h(vals(u@), j as int, desc@.delta_x)),
        r@.d > 0,
{
    proof {
        lemma_vals_open(u@, vals(u@));
    }
    let n = u.len();
    let s = sub_t(&u[j + 1], &u[j], Ghost(vals(u@)[j + 1]), Ghost(vals(u@)[j as int]));
    div_t(&s, &desc.delta_x, Ghost(q_sub(vals(u@)[j + 1], vals(u@)[j as int])), Ghost(
        desc@.delta_x,
    ))
}

/// `(d1h(j) - d1h(j-1)) / (2 dx)` as an executable value.
fn d2m_t(u: &Vec<Real>, j: usize, desc: &Descriptor) -> (r: Real)
    requires
        desc_wf(desc@),
        qs_wf(vals(u@)),
        1 <= j,
        j < u@.len() - 1,
    ensures
        q_eq(r@, sp_d2m(vals(u@), j as int, desc@.delta_x)),
        r@.d > 0,
{
    let ghost gu = vals(u@);
    let ghost dx = desc@.delta_x;
    let a = d1h_t(u, j, desc);
    let b = d1h_t(u, j - 1, desc);
    let s = sub_t(&a, &b, Ghost(sp_d1h(gu, j as int, dx)), Ghost(sp_d1h(gu, j - 1, dx)));
    let two = Real::from_int(2);
    let tdx = mul_t(&two, &desc.delta_x, Ghost(q_int(2)), Ghost(dx));
    div_t(&s, &tdx, Ghost(q_sub(sp_d1h(gu, j as int, dx), sp_d1h(gu, j - 1, dx))), Ghost(
        q_mul(q_int(2), dx),
    ))
}

/// `(d2m(j+1) - d2m(j)) / (3 dx)` as an executable value.
fn d3h_t(u: &Vec<Real>, j: usize, desc: &Descriptor) -> (r: Real)
    requires
        desc_wf(desc@),
        qs_wf(vals(u@)),
        1 <= j,
        j < u@.len() - 2,
    ensures
        q_eq(r@, sp_d3h(vals(u@), j as int, desc@.delta_x)),
        r@.d > 0,
{
    let ghost gu = vals(u@);
    let ghost dx = desc@.delta_x;
    let n = u.len();
    let a = d2m_t(u, j + 1, desc);
    let b = d2m_t(u, j, desc);
    let s = sub_t(&a, &b, Ghost(sp_d2m(gu, j + 1, dx)), Ghost(sp_d2m(gu, j as int, dx)));
    let three = Real::from_int(3);
    let tdx = mul_t(&three, &desc.delta_x, Ghost(q_int(3)), Ghost(dx));
    div_t(&s, &tdx, Ghost(q_sub(sp_d2m(gu, j + 1, dx), sp_d2m(gu, j as int, dx))), Ghost(
        q_mul(q_int(3), dx),
    ))
}

// ---------------------------------------------------------------------------
// Executable schemes.
// ---------------------------------------------------------------------------

/// Forward one-sided differences.
#[verifier::loop_isolation(false)]
pub fn forward_diff(u: &Vec<Real>, desc: &Descriptor) -> (ret: Vec<Real>)
    requires
        desc_wf(desc@),
        qs_wf(vals(u@)),
    ensures
        ret@.len() == u@.len(),
        qs_eq(vals(ret@), sp_forward(vals(u@), desc@)),
        qs_wf(vals(ret@)),
{
    let ghost gu = vals(u@);
    let ghost gd = desc@;
    proof {
        lemma_vals_open(u@, gu);
    }
    let n = u.len();
    let p = p_t(desc);
    let mut ret: Vec<Real> = Vec::new();
    for i in 0..n
        invariant
            ret@.len() == i,
            forall|j: int| 0 <= j < i ==> (#[trigger] ret@[j]@).d > 0,
            forall|j: int| 0 <= j < i ==> q_eq(#[trigger] ret@[j]@, sp_forward(gu, gd)[j]),
    {
        let e: Real;
        if i + 1 < n {
            let num = sub_t(&u[i + 1], &u[i], Ghost(gu[i + 1]), Ghost(gu[i as int]));
            let dr = div_t(&num, &desc.delta_x, Ghost(q_sub(gu[i + 1], gu[i as int])), Ghost(
                gd.delta_x,
            ));
            e = mul_t(&dr, &p, Ghost(sp_dr(gu, i as int, gd.delta_x)), Ghost(p_of(gd)));
        } else {
            e = Real::from_int(0);
        }
        ret.push(e);
    }
    proof {
        lemma_vals_fold(ret@, sp_forward(gu, gd));
    }
    ret
}

/// Backward one-sided differences.
#[verifier::loop_isolation(false)]
pub fn backward_diff(u: &Vec<Real>, desc: &Descriptor) -> (ret: Vec<Real>)
    requires
        desc_wf(desc@),
        qs_wf(vals(u@)),
    ensures
        ret@.len() == u@.len(),
        qs_eq(vals(ret@), sp_backward(vals(u@), desc@)),
        qs_wf(vals(ret@)),
{
    let ghost gu = vals(u@);
    let ghost gd = desc@;
    proof {
        lemma_vals_open(u@, gu);
    }
    let n = u.len();
    let p = p_t(desc);
    let mut ret: Vec<Real> = Vec::new();
    for i in 0..n
        invariant
            ret@.len() == i,
            forall|j: int| 0 <= j < i ==> (#[trigger] ret@[j]@).d > 0,
            forall|j: int| 0 <= j < i ==> q_eq(#[trigger] ret@[j]@, sp_backward(gu, gd)[j]),
    {
        let e: Real;
        if i >= 1 {
            let num = sub_t(&u[i], &u[i - 1], Ghost(gu[i as int]), Ghost(gu[i - 1]));
            let dl = div_t(&num, &desc.delta_x, Ghost(q_sub(gu[i as int], gu[i - 1])), Ghost(
                gd.delta_x,
            ));
            e = mul_t(&dl, &p, Ghost(sp_dl(gu, i as int, gd.delta_x)), Ghost(p_of(gd)));
        } else {
            e = Real::from_int(0);
        }
        ret.push(e);
    }
    proof {
        lemma_vals_fold(ret@, sp_backward(gu, gd));
    }
    ret
}

/// Upwind differences: direction chosen by the sign of the velocity.
pub fn upwind_diff(u: &Vec<Real>, desc: &Descriptor) -> (ret: Vec<Real>)
    requires
        desc_wf(desc@),
        qs_wf(vals(u@)),
    ensures
        ret@.len() == u@.len(),
        qs_eq(vals(ret@), sp_upwind(vals(u@), desc@)),
        qs_wf(vals(ret@)),
{
    let z = Real::from_int(0);
    if le_t(&z, &desc.vel, Ghost(q_int(0)), Ghost(desc@.vel)) {
        backward_diff(u, desc)
    } else {
        forward_diff(u, desc)
    }
}

/// Central differences.
#[verifier::loop_isolation(false)]
pub fn central_diff(u: &Vec<Real>, desc: &Descriptor) -> (ret: Vec<Real>)
    requires
        desc_wf(desc@),
        qs_wf(vals(u@)),
    ensures
        ret@.len() == u@.len(),
        qs_eq(vals(ret@), sp_central(vals(u@), desc@)),
        qs_wf(vals(ret@)),
{
    let ghost gu = vals(u@);
    let ghost gd = desc@;
    proof {
        lemma_vals_open(u@, gu);
    }
    let n = u.len();
    let p = p_t(desc);
    let two = Real::from_int(2);
    let tdx = mul_t(&two, &desc.delta_x, Ghost(q_int(2)), Ghost(gd.delta_x));
    let mut ret: Vec<Real> = Vec::new();
    for i in 0..n
        invariant
            ret@.len() == i,
            forall|j: int| 0 <= j < i ==> (#[trigger] ret@[j]@).d > 0,
            forall|j: int| 0 <= j < i ==> q_eq(#[trigger] ret@[j]@, sp_central(gu, gd)[j]),
    {
        let e: Real;
        if 1 <= i && i + 1 < n {
            let num = sub_t(&u[i + 1], &u[i - 1], Ghost(gu[i + 1]), Ghost(gu[i - 1]));
            let g1 = div_t(&num, &tdx, Ghost(q_sub(gu[i + 1], gu[i - 1])), Ghost(
                q_mul(q_int(2), gd.delta_x),
            ));
            e = mul_t(&g1, &p, Ghost(sp_grad1(gu, i as int, gd.delta_x)), Ghost(p_of(gd)));
        } else {
            e = Real::from_int(0);
        }
        ret.push(e);
    }
    proof {
        lemma_vals_fold(ret@, sp_central(gu, gd));
    }
    ret
}

/// Lax-Wendroff differences.
#[verifier::loop_isolation(false)]
pub fn lax_wendroff_diff(u: &Vec<Real>, desc: &Descriptor) -> (ret: Vec<Real>)
    requires
        desc_wf(desc@),
        qs_wf(vals(u@)),
    ensures
        ret@.len() == u@.len(),
        qs_eq(vals(ret@), sp_lax_wendroff(vals(u@), desc@)),
        qs_wf(vals(ret@)),
{
    let ghost gu = vals(u@);
    let ghost gd = desc@;
    proof {
        lemma_vals_open(u@, gu);
    }
    let n = u.len();
    let p = p_t(desc);
    let two = Real::from_int(2);
    let tdx = mul_t(&two, &desc.delta_x, Ghost(q_int(2)), Ghost(gd.delta_x));
    let tdx2 = mul_t(&tdx, &desc.delta_x, Ghost(q_mul(q_int(2), gd.delta_x)), Ghost(gd.delta_x));
    let mut ret: Vec<Real> = Vec::new();
    for i in 0..n
        invariant
            ret@.len() == i,
            forall|j: int| 0 <= j < i ==> (#[trigger] ret@[j]@).d > 0,
            forall|j: int| 0 <= j < i ==> q_eq(#[trigger] ret@[j]@, sp_lax_wendroff(gu, gd)[j]),
    {
        let e: Real;
        if 1 <= i && i + 1 < n {
            let ghost dx = gd.delta_x;
            proof {
                assert(q_mul(q_mul(q_int(2), dx), dx).n == (2 * dx.n) * dx.n);
                assert((2 * dx.n) * dx.n > 0) by (nonlinear_arith)
                    requires
                        dx.n > 0,
                ;
            }
            let num1 = sub_t(&u[i + 1], &u[i - 1], Ghost(gu[i + 1]), Ghost(gu[i - 1]));
            let g1 = div_t(&num1, &tdx, Ghost(q_sub(gu[i + 1], gu[i - 1])), Ghost(
                q_mul(q_int(2), dx),
            ));
            let tu = mul_t(&two, &u[i], Ghost(q_int(2)), Ghost(gu[i as int]));
            let num2a = sub_t(&u[i + 1], &tu, Ghost(gu[i + 1]), Ghost(q_mul(q_int(2), gu[i as int])));
            let num2 = add_t(&num2a, &u[i - 1], Ghost(q_sub(gu[i + 1], q_mul(q_int(2), gu[i as int]))),
                Ghost(gu[i - 1]));
            let g2 = div_t(&num2, &tdx2, Ghost(
                q_add(q_sub(gu[i + 1], q_mul(q_int(2), gu[i as int])), gu[i - 1]),
            ), Ghost(q_mul(q_mul(q_int(2), dx), dx)));
            let t1 = mul_t(&g1, &p, Ghost(sp_grad1(gu, i as int, dx)), Ghost(p_of(gd)));
            let t2a = mul_t(&g2, &p, Ghost(sp_grad2(gu, i as int, dx)), Ghost(p_of(gd)));
            let t2 = mul_t(&t2a, &p, Ghost(q_mul(sp_grad2(gu, i as int, dx), p_of(gd))), Ghost(
                p_of(gd),
            ));
            e = add_t(&t1, &t2, Ghost(q_mul(sp_grad1(gu, i as int, dx), p_of(gd))), Ghost(
                q_mul(q_mul(sp_grad2(gu, i as int, dx), p_of(gd)), p_of(gd)),
            ));
        } else {
            e = Real::from_int(0);
        }
        ret.push(e);
    }
    proof {
        lemma_vals_fold(ret@, sp_lax_wendroff(gu, gd));
    }
    ret
}

/// ENO differences.
#[verifier::loop_isolation(false)]
pub fn eno_diff(u: &Vec<Real>, desc: &Descriptor) -> (ret: Vec<Real>)
    requires
        desc_wf(desc@),
        qs_wf(vals(u@)),
    ensures
        ret@.len() == u@.len(),
        qs_eq(vals(ret@), sp_eno(vals(u@), desc@)),
        qs_wf(vals(ret@)),
{
    let ghost gu = vals(u@);
    let ghost gd = desc@;
    proof {
        lemma_vals_open(u@, gu);
    }
    let n = u.len();
    let p = p_t(desc);
    let z = Real::from_int(0);
    let two = Real::from_int(2);
    let three = Real::from_int(3);
    let m6 = Real::from_int(-6);
    let tdx = mul_t(&two, &desc.delta_x, Ghost(q_int(2)), Ghost(desc@.delta_x));
    let t3dx = mul_t(&three, &desc.delta_x, Ghost(q_int(3)), Ghost(desc@.delta_x));
    let m6dx = mul_t(&m6, &desc.delta_x, Ghost(q_int(-6)), Ghost(desc@.delta_x));
    let mut ret: Vec<Real> = Vec::new();
    for i in 0..n
        invariant
            ret@.len() == i,
            forall|j: int| 0 <= j < i ==> (#[trigger] ret@[j]@).d > 0,
            forall|j: int| 0 <= j < i ==> q_eq(#[trigger] ret@[j]@, sp_eno(gu, gd)[j]),
    {
        let e: Real;
        if n >= 7 && 3 <= i && i < n - 3 {
            let ghost gi = i as int;
            let ghost dx = gd.delta_x;
            // Stencil direction: upwind of the velocity.
            let b1 = le_t(&z, &desc.vel, Ghost(q_int(0)), Ghost(gd.vel));
            let k: usize = if b1 {
                i - 1
            } else {
                i
            };
            let ghost gk: int = if q_le(q_int(0), gd.vel) {
                gi - 1
            } else {
                gi
            };
            // Smoothest second difference.
            let d2a = d2m_t(u, k, desc);
            let d2b = d2m_t(u, k + 1, desc);
            let a2a = abs_t(&d2a, Ghost(sp_d2m(gu, gk, dx)));
            let a2b = abs_t(&d2b, Ghost(sp_d2m(gu, gk + 1, dx)));
            let b2 = le_t(&a2a, &a2b, Ghost(q_abs(sp_d2m(gu, gk, dx))), Ghost(
                q_abs(sp_d2m(gu, gk + 1, dx)),
            ));
            let l: usize = if b2 {
                k - 1
            } else {
                k
            };
            let ghost gl: int = if q_le(q_abs(sp_d2m(gu, gk, dx)), q_abs(sp_d2m(gu, gk + 1, dx))) {
                gk - 1
            } else {
                gk
            };
            // Smoothest third difference.
            let d3a = d3h_t(u, l, desc);
            let d3b = d3h_t(u, l + 1, desc);
            let a3a = abs_t(&d3a, Ghost(sp_d3h(gu, gl, dx)));
            let a3b = abs_t(&d3b, Ghost(sp_d3h(gu, gl + 1, dx)));
            let b3 = le_t(&a3a, &a3b, Ghost(q_abs(sp_d3h(gu, gl, dx))), Ghost(
                q_abs(sp_d3h(gu, gl + 1, dx)),
            ));
            // First-order term.
            let s1 = sub_t(&u[i], &u[i - 1], Ghost(gu[gi]), Ghost(gu[gi - 1]));
            let q1v = div_t(&s1, &desc.delta_x, Ghost(q_sub(gu[gi], gu[gi - 1])), Ghost(dx));
            // Second-order correction.
            let q2v: Real;
            if b2 {
                let m = mul_t(&two, &u[i - 1], Ghost(q_int(2)), Ghost(gu[gi - 1]));
                let s = sub_t(&u[i], &m, Ghost(gu[gi]), Ghost(q_mul(q_int(2), gu[gi - 1])));
                let num = add_t(&s, &u[i - 2], Ghost(q_sub(gu[gi], q_mul(q_int(2), gu[gi - 1]))),
                    Ghost(gu[gi - 2]));
                q2v = div_t(&num, &tdx, Ghost(
                    q_add(q_sub(gu[gi], q_mul(q_int(2), gu[gi - 1])), gu[gi - 2]),
                ), Ghost(q_mul(q_int(2), dx)));
            } else {
                let m = mul_t(&two, &u[i], Ghost(q_int(2)), Ghost(gu[gi]));
                let s = sub_t(&u[i + 1], &m, Ghost(gu[gi + 1]), Ghost(q_mul(q_int(2), gu[gi])));
                let num = add_t(&s, &u[i - 1], Ghost(q_sub(gu[gi + 1], q_mul(q_int(2), gu[gi]))),
                    Ghost(gu[gi - 1]));
                q2v = div_t(&num, &tdx, Ghost(
                    q_add(q_sub(gu[gi + 1], q_mul(q_int(2), gu[gi])), gu[gi - 1]),
                ), Ghost(q_mul(q_int(2), dx)));
            }
            // Third-order correction.
            let q3v: Real;
            if b2 && b3 {
                let ma = mul_t(&three, &u[i - 1], Ghost(q_int(3)), Ghost(gu[gi - 1]));
                let mb = mul_t(&three, &u[i - 2], Ghost(q_int(3)), Ghost(gu[gi - 2]));
                let sa = sub_t(&u[i], &ma, Ghost(gu[gi]), Ghost(q_mul(q_int(3), gu[gi - 1])));
                let sb = add_t(&sa, &mb, Ghost(q_sub(gu[gi], q_mul(q_int(3), gu[gi - 1]))), Ghost(
                    q_mul(q_int(3), gu[gi - 2]),
                ));
                let num = sub_t(&sb, &u[i - 3], Ghost(
                    q_add(q_sub(gu[gi], q_mul(q_int(3), gu[gi - 1])), q_mul(q_int(3), gu[gi - 2])),
                ), Ghost(gu[gi - 3]));
                q3v = div_t(&num, &t3dx, Ghost(
                    q_sub(
                        q_add(q_sub(gu[gi], q_mul(q_int(3), gu[gi - 1])), q_mul(q_int(3), gu[gi - 2])),
                        gu[gi - 3],
                    ),
                ), Ghost(q_mul(q_int(3), dx)));
            } else if b2 || b3 {
                let ma = mul_t(&three, &u[i], Ghost(q_int(3)), Ghost(gu[gi]));
                let mb = mul_t(&three, &u[i - 1], Ghost(q_int(3)), Ghost(gu[gi - 1]));
                let sa = sub_t(&u[i + 1], &ma, Ghost(gu[gi + 1]), Ghost(q_mul(q_int(3), gu[gi])));
                let sb = add_t(&sa, &mb, Ghost(q_sub(gu[gi + 1], q_mul(q_int(3), gu[gi]))), Ghost(
                    q_mul(q_int(3), gu[gi - 1]),
                ));
                let num = sub_t(&sb, &u[i - 2], Ghost(
                    q_add(q_sub(gu[gi + 1], q_mul(q_int(3), gu[gi])), q_mul(q_int(3), gu[gi - 1])),
                ), Ghost(gu[gi - 2]));
                let ghost gnum = q_sub(
                    q_add(q_sub(gu[gi + 1], q_mul(q_int(3), gu[gi])), q_mul(q_int(3), gu[gi - 1])),
                    gu[gi - 2],
                );
                if b2 {
                    q3v = div_t(&num, &t3dx, Ghost(gnum), Ghost(q_mul(q_int(3), dx)));
                } else {
                    q3v = div_t(&num, &m6dx, Ghost(gnum), Ghost(q_mul(q_int(-6), dx)));
                }
            } else {
                let ma = mul_t(&three, &u[i + 1], Ghost(q_int(3)), Ghost(gu[gi + 1]));
                let mb = mul_t(&three, &u[i], Ghost(q_int(3)), Ghost(gu[gi]));
                let sa = sub_t(&u[i + 2], &ma, Ghost(gu[gi + 2]), Ghost(q_mul(q_int(3), gu[gi + 1])));
                let sb = add_t(&sa, &mb, Ghost(q_sub(gu[gi + 2], q_mul(q_int(3), gu[gi + 1]))),
                    Ghost(q_mul(q_int(3), gu[gi])));
                let num = sub_t(&sb, &u[i - 1], Ghost(
                    q_add(q_sub(gu[gi + 2], q_mul(q_int(3), gu[gi + 1])), q_mul(q_int(3), gu[gi])),
                ), Ghost(gu[gi - 1]));
                q3v = div_t(&num, &m6dx, Ghost(
                    q_sub(
                        q_add(q_sub(gu[gi + 2], q_mul(q_int(3), gu[gi + 1])), q_mul(q_int(3), gu[gi])),
                        gu[gi - 1],
                    ),
                ), Ghost(q_mul(q_int(-6), dx)));
            }
            let ghost gb2 = q_le(q_abs(sp_d2m(gu, gk, dx)), q_abs(sp_d2m(gu, gk + 1, dx)));
            let ghost gb3 = q_le(q_abs(sp_d3h(gu, gl, dx)), q_abs(sp_d3h(gu, gl + 1, dx)));
            let ghost geq1 = q_div(q_sub(gu[gi], gu[gi - 1]), dx);
            let ghost geq2 = (if gb2 {
                q_div(q_add(q_sub(gu[gi], q_mul(q_int(2), gu[gi - 1])), gu[gi - 2]), q_mul(q_int(2), dx))
            } else {
                q_div(q_add(q_sub(gu[gi + 1], q_mul(q_int(2), gu[gi])), gu[gi - 1]), q_mul(q_int(2), dx))
            });
            let ghost geq3 = (if gb2 && gb3 {
                q_div(
                    q_sub(
                        q_add(q_sub(gu[gi], q_mul(q_int(3), gu[gi - 1])), q_mul(q_int(3), gu[gi - 2])),
                        gu[gi - 3],
                    ),
                    q_mul(q_int(3), dx),
                )
            } else if gb2 && !gb3 {
                q_div(
                    q_sub(
                        q_add(q_sub(gu[gi + 1], q_mul(q_int(3), gu[gi])), q_mul(q_int(3), gu[gi - 1])),
                        gu[gi - 2],
                    ),
                    q_mul(q_int(3), dx),
                )
            } else if !gb2 && gb3 {
                q_div(
                    q_sub(
                        q_add(q_sub(gu[gi + 1], q_mul(q_int(3), gu[gi])), q_mul(q_int(3), gu[gi - 1])),
                        gu[gi - 2],
                    ),
                    q_mul(q_int(-6), dx),
                )
            } else {
                q_div(
                    q_sub(
                        q_add(q_sub(gu[gi + 2], q_mul(q_int(3), gu[gi + 1])), q_mul(q_int(3), gu[gi])),
                        gu[gi - 1],
                    ),
                    q_mul(q_int(-6), dx),
                )
            });
            let s12 = add_t(&q1v, &q2v, Ghost(geq1), Ghost(geq2));
            let ssum = add_t(&s12, &q3v, Ghost(q_add(geq1, geq2)), Ghost(geq3));
            e = mul_t(&ssum, &p, Ghost(q_add(q_add(geq1, geq2), geq3)), Ghost(p_of(gd)));
            proof {
                assert(q_eq(e@, sp_eno_inc(gu, gi, gd)));
            }
        } else {
            e = Real::from_int(0);
        }
        ret.push(e);
    }
    proof {
        lemma_vals_fold(ret@, sp_eno(gu, gd));
    }
    ret
}

/// WENO differences.
#[verifier::loop_isolation(false)]
pub fn weno_diff(u: &Vec<Real>, desc: &Descriptor) -> (ret: Vec<Real>)
    requires
        desc_wf(desc@),
        qs_wf(vals(u@)),
    ensures
        ret@.len() == u@.len(),
        qs_eq(vals(ret@), sp_weno(vals(u@), desc@)),
        qs_wf(vals(ret@)),
{
    let ghost gu = vals(u@);
    let ghost gd = desc@;
    proof {
        lemma_vals_open(u@, gu);
    }
    let n = u.len();
    let p = p_t(desc);
    let two = Real::from_int(2);
    let three = Real::from_int(3);
    let four = Real::from_int(4);
    let c13 = Real::from_ratio(1, 3);
    let c76 = Real::from_ratio(7, 6);
    let c116 = Real::from_ratio(11, 6);
    let cm16 = Real::from_ratio(-1, 6);
    let c56 = Real::from_ratio(5, 6);
    let c16 = Real::from_ratio(1, 6);
    let c1312 = Real::from_ratio(13, 12);
    let c14 = Real::from_ratio(1, 4);
    let c110 = Real::from_ratio(1, 10);
    let c610 = Real::from_ratio(6, 10);
    let c310 = Real::from_ratio(3, 10);
    let eps = Real::from_ratio(1, 1000000);
    let mut ret: Vec<Real> = Vec::new();
    for i in 0..n
        invariant
            ret@.len() == i,
            forall|j: int| 0 <= j < i ==> (#[trigger] ret@[j]@).d > 0,
            forall|j: int| 0 <= j < i ==> q_eq(#[trigger] ret@[j]@, sp_weno(gu, gd)[j]),
    {
        let e: Real;
        if n >= 7 && 3 <= i && i < n - 3 {
            let ghost gi = i as int;
            let ghost dx = gd.delta_x;
            let ghost lm2 = sp_dl(gu, gi - 2, dx);
            let ghost lm1 = sp_dl(gu, gi - 1, dx);
            let ghost l0 = sp_dl(gu, gi, dx);
            let ghost lp1 = sp_dl(gu, gi + 1, dx);
            let ghost lp2 = sp_dl(gu, gi + 2, dx);
            proof {
                lemma_weno_pos(gu, gi, dx);
            }
            let sm2 = sub_t(&u[i - 2], &u[i - 3], Ghost(gu[gi - 2]), Ghost(gu[gi - 3]));
            let dm2 = div_t(&sm2, &desc.delta_x, Ghost(q_sub(gu[gi - 2], gu[gi - 3])), Ghost(dx));
            let sm1 = sub_t(&u[i - 1], &u[i - 2], Ghost(gu[gi - 1]), Ghost(gu[gi - 2]));
            let dm1 = div_t(&sm1, &desc.delta_x, Ghost(q_sub(gu[gi - 1], gu[gi - 2])), Ghost(dx));
            let s0 = sub_t(&u[i], &u[i - 1], Ghost(gu[gi]), Ghost(gu[gi - 1]));
            let d0 = div_t(&s0, &desc.delta_x, Ghost(q_sub(gu[gi], gu[gi - 1])), Ghost(dx));
            let sp1 = sub_t(&u[i + 1], &u[i], Ghost(gu[gi + 1]), Ghost(gu[gi]));
            let dp1 = div_t(&sp1, &desc.delta_x, Ghost(q_sub(gu[gi + 1], gu[gi])), Ghost(dx));
            let sp2 = sub_t(&u[i + 2], &u[i + 1], Ghost(gu[gi + 2]), Ghost(gu[gi + 1]));
            let dp2 = div_t(&sp2, &desc.delta_x, Ghost(q_sub(gu[gi + 2], gu[gi + 1])), Ghost(dx));

            // Candidate derivatives.
            let u1a = mul_t(&c13, &dm2, Ghost(q_frac(1, 3)), Ghost(lm2));
            let u1b = mul_t(&c76, &dm1, Ghost(q_frac(7, 6)), Ghost(lm1));
            let u1ab = sub_t(&u1a, &u1b, Ghost(q_mul(q_frac(1, 3), lm2)), Ghost(
                q_mul(q_frac(7, 6), lm1),
            ));
            let u1c = mul_t(&c116, &d0, Ghost(q_frac(11, 6)), Ghost(l0));
            let u1v = add_t(&u1ab, &u1c, Ghost(
                q_sub(q_mul(q_frac(1, 3), lm2), q_mul(q_frac(7, 6), lm1)),
            ), Ghost(q_mul(q_frac(11, 6), l0)));

            let u2a = mul_t(&cm16, &dm1, Ghost(q_frac(-1, 6)), Ghost(lm1));
            let u2b = mul_t(&c56, &d0, Ghost(q_frac(5, 6)), Ghost(l0));
            let u2ab = add_t(&u2a, &u2b, Ghost(q_mul(q_frac(-1, 6), lm1)), Ghost(
                q_mul(q_frac(5, 6), l0),
            ));
            let u2c = mul_t(&c13, &dp1, Ghost(q_frac(1, 3)), Ghost(lp1));
            let u2v = add_t(&u2ab, &u2c, Ghost(
                q_add(q_mul(q_frac(-1, 6), lm1), q_mul(q_frac(5, 6), l0)),
            ), Ghost(q_mul(q_frac(1, 3), lp1)));

            let u3a = mul_t(&c13, &d0, Ghost(q_frac(1, 3)), Ghost(l0));
            let u3b = mul_t(&c56, &dp1, Ghost(q_frac(5, 6)), Ghost(lp1));
            let u3ab = add_t(&u3a, &u3b, Ghost(q_mul(q_frac(1, 3), l0)), Ghost(
                q_mul(q_frac(5, 6), lp1),
            ));
            let u3c = mul_t(&c16, &dp2, Ghost(q_frac(1, 6)), Ghost(lp2));
            let u3v = sub_t(&u3ab, &u3c, Ghost(
                q_add(q_mul(q_frac(1, 3), l0), q_mul(q_frac(5, 6), lp1)),
            ), Ghost(q_mul(q_frac(1, 6), lp2)));

            // Smoothness indicators.
            let ghost gt1 = q_add(q_sub(lm2, q_mul(q_int(2), lm1)), l0);
            let ghost gt2 = q_add(q_sub(lm2, q_mul(q_int(4), lm1)), q_mul(q_int(3), l0));
            let ghost gt3 = q_add(q_sub(lm1, q_mul(q_int(2), l0)), lp1);
            let ghost gt4 = q_sub(lm1, lp1);
            let ghost gt5 = q_add(q_sub(l0, q_mul(q_int(2), lp1)), lp2);
            let ghost gt6 = q_add(q_sub(q_mul(q_int(3), l0), q_mul(q_int(4), lp1)), lp2);

            let w1a = mul_t(&two, &dm1, Ghost(q_int(2)), Ghost(lm1));
            let t1a = sub_t(&dm2, &w1a, Ghost(lm2), Ghost(q_mul(q_int(2), lm1)));
            let t1v = add_t(&t1a, &d0, Ghost(q_sub(lm2, q_mul(q_int(2), lm1))), Ghost(l0));
            let w2a = mul_t(&four, &dm1, Ghost(q_int(4)), Ghost(lm1));
            let w2b = mul_t(&three, &d0, Ghost(q_int(3)), Ghost(l0));
            let t2a = sub_t(&dm2, &w2a, Ghost(lm2), Ghost(q_mul(q_int(4), lm1)));
            let t2v = add_t(&t2a, &w2b, Ghost(q_sub(lm2, q_mul(q_int(4), lm1))), Ghost(
                q_mul(q_int(3), l0),
            ));
            let q1 = mul_t(&t1v, &t1v, Ghost(gt1), Ghost(gt1));
            let q2 = mul_t(&t2v, &t2v, Ghost(gt2), Ghost(gt2));
            let k1 = mul_t(&c1312, &q1, Ghost(q_frac(13, 12)), Ghost(q_mul(gt1, gt1)));
            let k2 = mul_t(&c14, &q2, Ghost(q_frac(1, 4)), Ghost(q_mul(gt2, gt2)));
            let s1v = add_t(&k1, &k2, Ghost(q_mul(q_frac(13, 12), q_mul(gt1, gt1))), Ghost(
                q_mul(q_frac(1, 4), q_mul(gt2, gt2)),
            ));

            let w3a = mul_t(&two, &d0, Ghost(q_int(2)), Ghost(l0));
            let t3a = sub_t(&dm1, &w3a, Ghost(lm1), Ghost(q_mul(q_int(2), l0)));
            let t3v = add_t(&t3a, &dp1, Ghost(q_sub(lm1, q_mul(q_int(2), l0))), Ghost(lp1));
            let t4v = sub_t(&dm1, &dp1, Ghost(lm1), Ghost(lp1));
            let q3 = mul_t(&t3v, &t3v, Ghost(gt3), Ghost(gt3));
            let q4 = mul_t(&t4v, &t4v, Ghost(gt4), Ghost(gt4));
            let k3 = mul_t(&c1312, &q3, Ghost(q_frac(13, 12)), Ghost(q_mul(gt3, gt3)));
            let k4 = mul_t(&c14, &q4, Ghost(q_frac(1, 4)), Ghost(q_mul(gt4, gt4)));
            let s2v = add_t(&k3, &k4, Ghost(q_mul(q_frac(13, 12), q_mul(gt3, gt3))), Ghost(
                q_mul(q_frac(1, 4), q_mul(gt4, gt4)),
            ));

            let w5a = mul_t(&two, &dp1, Ghost(q_int(2)), Ghost(lp1));
            let t5a = sub_t(&d0, &w5a, Ghost(l0), Ghost(q_mul(q_int(2), lp1)));
            let t5v = add_t(&t5a, &dp2, Ghost(q_sub(l0, q_mul(q_int(2), lp1))), Ghost(lp2));
            let w6a = mul_t(&three, &d0, Ghost(q_int(3)), Ghost(l0));
            let w6b = mul_t(&four, &dp1, Ghost(q_int(4)), Ghost(lp1));
            let t6a = sub_t(&w6a, &w6b, Ghost(q_mul(q_int(3), l0)), Ghost(q_mul(q_int(4), lp1)));
            let t6v = add_t(&t6a, &dp2, Ghost(
                q_sub(q_mul(q_int(3), l0), q_mul(q_int(4), lp1)),
            ), Ghost(lp2));
            let q5 = mul_t(&t5v, &t5v, Ghost(gt5), Ghost(gt5));
            let q6 = mul_t(&t6v, &t6v, Ghost(gt6), Ghost(gt6));
            let k5 = mul_t(&c1312, &q5, Ghost(q_frac(13, 12)), Ghost(q_mul(gt5, gt5)));
            let k6 = mul_t(&c14, &q6, Ghost(q_frac(1, 4)), Ghost(q_mul(gt6, gt6)));
            let s3v = add_t(&k5, &k6, Ghost(q_mul(q_frac(13, 12), q_mul(gt5, gt5))), Ghost(
                q_mul(q_frac(1, 4), q_mul(gt6, gt6)),
            ));

            // Unnormalized and normalized weights.
            let ghost gs1e = q_add(sp_w_s1(gu, gi, dx), sp_eps());
            let ghost gs2e = q_add(sp_w_s2(gu, gi, dx), sp_eps());
            let ghost gs3e = q_add(sp_w_s3(gu, gi, dx), sp_eps());
            let s1e = add_t(&s1v, &eps, Ghost(sp_w_s1(gu, gi, dx)), Ghost(sp_eps()));
            let s2e = add_t(&s2v, &eps, Ghost(sp_w_s2(gu, gi, dx)), Ghost(sp_eps()));
            let s3e = add_t(&s3v, &eps, Ghost(sp_w_s3(gu, gi, dx)), Ghost(sp_eps()));
            let p1sq = mul_t(&s1e, &s1e, Ghost(gs1e), Ghost(gs1e));
            let p2sq = mul_t(&s2e, &s2e, Ghost(gs2e), Ghost(gs2e));
            let p3sq = mul_t(&s3e, &s3e, Ghost(gs3e), Ghost(gs3e));
            let a1v = div_t(&c110, &p1sq, Ghost(q_frac(1, 10)), Ghost(q_mul(gs1e, gs1e)));
            let a2v = div_t(&c610, &p2sq, Ghost(q_frac(6, 10)), Ghost(q_mul(gs2e, gs2e)));
            let a3v = div_t(&c310, &p3sq, Ghost(q_frac(3, 10)), Ghost(q_mul(gs3e, gs3e)));
            let a12 = add_t(&a1v, &a2v, Ghost(sp_w_a1(gu, gi, dx)), Ghost(sp_w_a2(gu, gi, dx)));
            let asum = add_t(&a12, &a3v, Ghost(
                q_add(sp_w_a1(gu, gi, dx), sp_w_a2(gu, gi, dx)),
            ), Ghost(sp_w_a3(gu, gi, dx)));
            let w1v = div_t(&a1v, &asum, Ghost(sp_w_a1(gu, gi, dx)), Ghost(sp_w_asum(gu, gi, dx)));
            let w2v = div_t(&a2v, &asum, Ghost(sp_w_a2(gu, gi, dx)), Ghost(sp_w_asum(gu, gi, dx)));
            let w3v = div_t(&a3v, &asum, Ghost(sp_w_a3(gu, gi, dx)), Ghost(sp_w_asum(gu, gi, dx)));

            // The blended increment.
            let m1 = mul_t(&w1v, &u1v, Ghost(sp_w_w1(gu, gi, dx)), Ghost(sp_w_u1(gu, gi, dx)));
            let m2 = mul_t(&w2v, &u2v, Ghost(sp_w_w2(gu, gi, dx)), Ghost(sp_w_u2(gu, gi, dx)));
            let m3 = mul_t(&w3v, &u3v, Ghost(sp_w_w3(gu, gi, dx)), Ghost(sp_w_u3(gu, gi, dx)));
            let m12 = add_t(&m1, &m2, Ghost(
                q_mul(sp_w_w1(gu, gi, dx), sp_w_u1(gu, gi, dx)),
            ), Ghost(q_mul(sp_w_w2(gu, gi, dx), sp_w_u2(gu, gi, dx))));
            let msum = add_t(&m12, &m3, Ghost(
                q_add(
                    q_mul(sp_w_w1(gu, gi, dx), sp_w_u1(gu, gi, dx)),
                    q_mul(sp_w_w2(gu, gi, dx), sp_w_u2(gu, gi, dx)),
                ),
            ), Ghost(q_mul(sp_w_w3(gu, gi, dx), sp_w_u3(gu, gi, dx))));
            e = mul_t(&msum, &p, Ghost(
                q_add(
                    q_add(
                        q_mul(sp_w_w1(gu, gi, dx), sp_w_u1(gu, gi, dx)),
                        q_mul(sp_w_w2(gu, gi, dx), sp_w_u2(gu, gi, dx)),
                    ),
                    q_mul(sp_w_w3(gu, gi, dx), sp_w_u3(gu, gi, dx)),
                ),
            ), Ghost(p_of(gd)));
            proof {
                assert(q_eq(e@, sp_weno(gu, gd)[gi]));
            }
        } else {
            e = Real::from_int(0);
        }
        ret.push(e);
    }
    proof {
        lemma_vals_fold(ret@, sp_weno(gu, gd));
    }
    ret
}

// ---------------------------------------------------------------------------
// CIP: cubic-interpolated propagation. The only scheme that also integrates
// in time: it evolves the value field and the slope field together and is
// valid for `i >= 1`; node 0 is left unmodified.
// ---------------------------------------------------------------------------

/// Leading cubic coefficient of the Hermite profile on `[i-1, i]`.
pub open spec fn sp_cip_a(u: Seq<Q>, g: Seq<Q>, i: int, dx: Q) -> Q {
    q_sub(
        q_div(q_add(g[i], g[i - 1]), q_mul(dx, dx)),
        q_div(q_mul(q_int(2), q_sub(u[i], u[i - 1])), q_mul(q_mul(dx, dx), dx)),
    )
}

/// Quadratic coefficient of the Hermite profile on `[i-1, i]`.
pub open spec fn sp_cip_b(u: Seq<Q>, g: Seq<Q>, i: int, dx: Q) -> Q {
    q_add(
        q_div(q_mul(q_int(3), q_sub(u[i - 1], u[i])), q_mul(dx, dx)),
        q_div(q_add(q_mul(q_int(2), g[i]), g[i - 1]), dx),
    )
}

/// The updated value: `a p^3 + b p^2 + c p + u[i]` with `c = g[i]`.
pub open spec fn sp_cip_u(u: Seq<Q>, g: Seq<Q>, i: int, d: DescV) -> Q {
    let p = p_of(d);
    let a = sp_cip_a(u, g, i, d.delta_x);
    let b = sp_cip_b(u, g, i, d.delta_x);
    q_add(
        q_add(q_add(q_mul(a, q_mul(q_mul(p, p), p)), q_mul(b, q_mul(p, p))), q_mul(g[i], p)),
        u[i],
    )
}

/// The updated slope: `3 a p^2 + 2 b p + c` with `c = g[i]`.
pub open spec fn sp_cip_g(u: Seq<Q>, g: Seq<Q>, i: int, d: DescV) -> Q {
    let p = p_of(d);
    let a = sp_cip_a(u, g, i, d.delta_x);
    let b = sp_cip_b(u, g, i, d.delta_x);
    q_add(
        q_add(q_mul(q_mul(q_int(3), a), q_mul(p, p)), q_mul(q_mul(q_int(2), b), p)),
        g[i],
    )
}

/// The next value field under CIP.
pub open spec fn sp_cip_unew(u: Seq<Q>, g: Seq<Q>, d: DescV) -> Seq<Q> {
    Seq::new(u.len(), |i: int| if 1 <= i { sp_cip_u(u, g, i, d) } else { u[i] })
}

/// The next slope field under CIP.
pub open spec fn sp_cip_gnew(u: Seq<Q>, g: Seq<Q>, d: DescV) -> Seq<Q> {
    Seq::new(u.len(), |i: int| if 1 <= i { sp_cip_g(u, g, i, d) } else { g[i] })
}

/// One CIP step over both fields.
#[verifier::loop_isolation(false)]
pub fn cip(u: &Vec<Real>, g: &Vec<Real>, desc: &Descriptor) -> (ret: (Vec<Real>, Vec<Real>))
    requires
        desc_wf(desc@),
        qs_wf(vals(u@)),
        qs_wf(vals(g@)),
        u@.len() == g@.len(),
    ensures
        ret.0@.len() == u@.len(),
        ret.1@.len() == u@.len(),
        qs_eq(vals(ret.0@), sp_cip_unew(vals(u@), vals(g@), desc@)),
        qs_eq(vals(ret.1@), sp_cip_gnew(vals(u@), vals(g@), desc@)),
        qs_wf(vals(ret.0@)),
        qs_wf(vals(ret.1@)),
{
    let ghost gu = vals(u@);
    let ghost gg = vals(g@);
    let ghost gd = desc@;
    let ghost dx = gd.delta_x;
    let ghost gp = p_of(gd);
    proof {
        lemma_vals_open(u@, gu);
        lemma_vals_open(g@, gg);
        assert(q_mul(dx, dx).n == dx.n * dx.n);
        assert(dx.n * dx.n > 0 && (dx.n * dx.n) * dx.n > 0) by (nonlinear_arith)
            requires
                dx.n > 0,
        ;
    }
    let n = u.len();
    let p = p_t(desc);
    let p2 = mul_t(&p, &p, Ghost(gp), Ghost(gp));
    let p3 = mul_t(&p2, &p, Ghost(q_mul(gp, gp)), Ghost(gp));
    let two = Real::from_int(2);
    let three = Real::from_int(3);
    let dx2 = mul_t(&desc.delta_x, &desc.delta_x, Ghost(dx), Ghost(dx));
    let dx3 = mul_t(&dx2, &desc.delta_x, Ghost(q_mul(dx, dx)), Ghost(dx));
    let mut ret0: Vec<Real> = Vec::new();
    let mut ret1: Vec<Real> = Vec::new();
    for i in 0..n
        invariant
            ret0@.len() == i,
            ret1@.len() == i,
            forall|j: int| 0 <= j < i ==> (#[trigger] ret0@[j]@).d > 0,
            forall|j: int| 0 <= j < i ==> (#[trigger] ret1@[j]@).d > 0,
            forall|j: int| 0 <= j < i ==> q_eq(#[trigger] ret0@[j]@, sp_cip_unew(gu, gg, gd)[j]),
            forall|j: int| 0 <= j < i ==> q_eq(#[trigger] ret1@[j]@, sp_cip_gnew(gu, gg, gd)[j]),
    {
        let eu: Real;
        let eg: Real;
        if i >= 1 {
            let ghost gi = i as int;
            let ghost ga = sp_cip_a(gu, gg, gi, dx);
            let ghost gb = sp_cip_b(gu, gg, gi, dx);
            // a = (g[i] + g[i-1]) / dx^2 - 2 (u[i] - u[i-1]) / dx^3
            let gsum = add_t(&g[i], &g[i - 1], Ghost(gg[gi]), Ghost(gg[gi - 1]));
            let a1 = div_t(&gsum, &dx2, Ghost(q_add(gg[gi], gg[gi - 1])), Ghost(q_mul(dx, dx)));
            let usub = sub_t(&u[i], &u[i - 1], Ghost(gu[gi]), Ghost(gu[gi - 1]));
            let usub2 = mul_t(&two, &usub, Ghost(q_int(2)), Ghost(q_sub(gu[gi], gu[gi - 1])));
            let a2 = div_t(&usub2, &dx3, Ghost(q_mul(q_int(2), q_sub(gu[gi], gu[gi - 1]))), Ghost(
                q_mul(q_mul(dx, dx), dx),
            ));
            let av = sub_t(&a1, &a2, Ghost(q_div(q_add(gg[gi], gg[gi - 1]), q_mul(dx, dx))), Ghost(
                q_div(q_mul(q_int(2), q_sub(gu[gi], gu[gi - 1])), q_mul(q_mul(dx, dx), dx)),
            ));
            // b = 3 (u[i-1] - u[i]) / dx^2 + (2 g[i] + g[i-1]) / dx
            let usw = sub_t(&u[i - 1], &u[i], Ghost(gu[gi - 1]), Ghost(gu[gi]));
            let usw3 = mul_t(&three, &usw, Ghost(q_int(3)), Ghost(q_sub(gu[gi - 1], gu[gi])));
            let b1 = div_t(&usw3, &dx2, Ghost(q_mul(q_int(3), q_sub(gu[gi - 1], gu[gi]))), Ghost(
                q_mul(dx, dx),
            ));
            let gtwo = mul_t(&two, &g[i], Ghost(q_int(2)), Ghost(gg[gi]));
            let gnum = add_t(&gtwo, &g[i - 1], Ghost(q_mul(q_int(2), gg[gi])), Ghost(gg[gi - 1]));
            let b2 = div_t(&gnum, &desc.delta_x, Ghost(q_add(q_mul(q_int(2), gg[gi]), gg[gi - 1])),
                Ghost(dx));
            let bv = add_t(&b1, &b2, Ghost(
                q_div(q_mul(q_int(3), q_sub(gu[gi - 1], gu[gi])), q_mul(dx, dx)),
            ), Ghost(q_div(q_add(q_mul(q_int(2), gg[gi]), gg[gi - 1]), dx)));
            // u'[i] = a p^3 + b p^2 + c p + u[i]
            let t1 = mul_t(&av, &p3, Ghost(ga), Ghost(q_mul(q_mul(gp, gp), gp)));
            let t2 = mul_t(&bv, &p2, Ghost(gb), Ghost(q_mul(gp, gp)));
            let t12 = add_t(&t1, &t2, Ghost(q_mul(ga, q_mul(q_mul(gp, gp), gp))), Ghost(
                q_mul(gb, q_mul(gp, gp)),
            ));
            let t3 = mul_t(&g[i], &p, Ghost(gg[gi]), Ghost(gp));
            let t123 = add_t(&t12, &t3, Ghost(
                q_add(q_mul(ga, q_mul(q_mul(gp, gp), gp)), q_mul(gb, q_mul(gp, gp))),
            ), Ghost(q_mul(gg[gi], gp)));
            eu = add_t(&t123, &u[i], Ghost(
                q_add(
                    q_add(q_mul(ga, q_mul(q_mul(gp, gp), gp)), q_mul(gb, q_mul(gp, gp))),
                    q_mul(gg[gi], gp),
                ),
            ), Ghost(gu[gi]));
            // g'[i] = 3 a p^2 + 2 b p + c
            let ta = mul_t(&three, &av, Ghost(q_int(3)), Ghost(ga));
            let t1g = mul_t(&ta, &p2, Ghost(q_mul(q_int(3), ga)), Ghost(q_mul(gp, gp)));
            let tb = mul_t(&two, &bv, Ghost(q_int(2)), Ghost(gb));
            let t2g = mul_t(&tb, &p, Ghost(q_mul(q_int(2), gb)), Ghost(gp));
            let t12g = add_t(&t1g, &t2g, Ghost(q_mul(q_mul(q_int(3), ga), q_mul(gp, gp))), Ghost(
                q_mul(q_mul(q_int(2), gb), gp),
            ));
            eg = add_t(&t12g, &g[i], Ghost(
                q_add(q_mul(q_mul(q_int(3), ga), q_mul(gp, gp)), q_mul(q_mul(q_int(2), gb), gp)),
            ), Ghost(gg[gi]));
        } else {
            eu = u[i].dup();
            eg = g[i].dup();
        }
        ret0.push(eu);
        ret1.push(eg);
    }
    proof {
        lemma_vals_fold(ret0@, sp_cip_unew(gu, gg, gd));
        lemma_vals_fold(ret1@, sp_cip_gnew(gu, gg, gd));
    }
    (ret0, ret1)
}

// ---------------------------------------------------------------------------
// The dispatching increment function, its well-formedness, and its
// compatibility with value equality (the schemes are functions of the
// values, not of the chosen representatives).
// ---------------------------------------------------------------------------

/// The increment field of the selected scheme. CIP does not produce an
/// increment field; its entry is all zeros.
pub open spec fn sp_diff(s: SpatialScheme, u: Seq<Q>, d: DescV) -> Seq<Q> {
    match s {
        SpatialScheme::Central => sp_central(u, d),
        SpatialScheme::Upwind => sp_upwind(u, d),
        SpatialScheme::LaxWendroff => sp_lax_wendroff(u, d),
        SpatialScheme::ENO => sp_eno(u, d),
        SpatialScheme::WENO => sp_weno(u, d),
        SpatialScheme::CIP => Seq::new(u.len(), |i: int| q_int(0)),
    }
}

pub proof fn lemma_sp_diff_wf(s: SpatialScheme, u: Seq<Q>, d: DescV)
    requires
        qs_wf(u),
        desc_wf(d),
    ensures
        sp_diff(s, u, d).len() == u.len(),
        qs_wf(sp_diff(s, u, d)),
{
    let n = u.len() as int;
    let dx = d.delta_x;
    assert(q_mul(q_int(2), dx).n == 2 * dx.n);
    assert(q_mul(q_int(3), dx).n == 3 * dx.n);
    assert(q_mul(q_int(-6), dx).n == -6 * dx.n);
    assert(q_mul(q_mul(q_int(2), dx), dx).n == (2 * dx.n) * dx.n);
    assert((2 * dx.n) * dx.n > 0) by (nonlinear_arith)
        requires
            dx.n > 0,
    ;
    assert forall|i: int| 0 <= i < n implies (#[trigger] sp_diff(s, u, d)[i]).d > 0 by {
        match s {
            SpatialScheme::WENO => {
                if 3 <= i < n - 3 {
                    lemma_weno_pos(u, i, dx);
                }
            },
            _ => {},
        }
    }
}

/// Value equality of the inputs carries to value equality of the increments.
pub proof fn lemma_sp_diff_cong(s: SpatialScheme, u: Seq<Q>, v: Seq<Q>, d: DescV)
    requires
        qs_eq(u, v),
        qs_wf(u),
        qs_wf(v),
        desc_wf(d),
    ensures
        qs_eq(sp_diff(s, u, d), sp_diff(s, v, d)),
{
    let n = u.len() as int;
    let dx = d.delta_x;
    assert(q_mul(q_int(2), dx).n == 2 * dx.n);
    assert(q_mul(q_int(3), dx).n == 3 * dx.n);
    assert(q_mul(q_int(-6), dx).n == -6 * dx.n);
    assert(q_mul(q_mul(q_int(2), dx), dx).n == (2 * dx.n) * dx.n);
    assert((2 * dx.n) * dx.n > 0) by (nonlinear_arith)
        requires
            dx.n > 0,
    ;
    assert forall|i: int| 0 <= i < n implies q_eq(
        #[trigger] sp_diff(s, u, d)[i],
        #[trigger] sp_diff(s, v, d)[i],
    ) by {
        match s {
            SpatialScheme::Central => {
                if 1 <= i < n - 1 {
                    lemma_grad1_cong(u, v, i, dx);
                    lemma_add_cong(sp_grad1(u, i, dx), sp_grad1(v, i, dx), p_of(d), p_of(d));
                }
            },
            SpatialScheme::Upwind => {
                if q_le(q_int(0), d.vel) {
                    if 1 <= i < n {
                        lemma_dl_cong(u, v, i, dx);
                        lemma_add_cong(sp_dl(u, i, dx), sp_dl(v, i, dx), p_of(d), p_of(d));
                    }
                } else {
                    if 0 <= i < n - 1 {
                        lemma_dr_cong(u, v, i, dx);
                        lemma_add_cong(sp_dr(u, i, dx), sp_dr(v, i, dx), p_of(d), p_of(d));
                    }
                }
            },
            SpatialScheme::LaxWendroff => {
                if 1 <= i < n - 1 {
                    lemma_grad1_cong(u, v, i, dx);
                    lemma_grad2_cong(u, v, i, dx);
                    lemma_add_cong(sp_grad1(u, i, dx), sp_grad1(v, i, dx), p_of(d), p_of(d));
                    lemma_add_cong(sp_grad2(u, i, dx), sp_grad2(v, i, dx), p_of(d), p_of(d));
                    lemma_add_cong(
                        q_mul(sp_grad2(u, i, dx), p_of(d)),
                        q_mul(sp_grad2(v, i, dx), p_of(d)),
                        p_of(d),
                        p_of(d),
                    );
                    lemma_add_cong(
                        q_mul(sp_grad1(u, i, dx), p_of(d)),
                        q_mul(sp_grad1(v, i, dx), p_of(d)),
                        q_mul(q_mul(sp_grad2(u, i, dx), p_of(d)), p_of(d)),
                        q_mul(q_mul(sp_grad2(v, i, dx), p_of(d)), p_of(d)),
                    );
                }
            },
            SpatialScheme::ENO => {
                if 3 <= i < n - 3 {
                    lemma_eno_inc_cong(u, v, i, d);
                }
            },
            SpatialScheme::WENO => {
                if 3 <= i < n - 3 {
                    lemma_weno_inc_cong(u, v, i, d);
                }
            },
            SpatialScheme::CIP => {},
        }
    }
}

proof fn lemma_dl_cong(u: Seq<Q>, v: Seq<Q>, j: int, dx: Q)
    requires
        qs_eq(u, v),
        qs_wf(u),
        qs_wf(v),
        dx.d > 0,
        dx.n > 0,
        1 <= j < u.len(),
    ensures
        q_eq(sp_dl(u, j, dx), sp_dl(v, j, dx)),
{
    lemma_add_cong(u[j], v[j], u[j - 1], v[j - 1]);
    lemma_div_cong(q_sub(u[j], u[j - 1]), q_sub(v[j], v[j - 1]), dx, dx);
}

proof fn lemma_dr_cong(u: Seq<Q>, v: Seq<Q>, j: int, dx: Q)
    requires
        qs_eq(u, v),
        qs_wf(u),
        qs_wf(v),
        dx.d > 0,
        dx.n > 0,
        0 <= j < u.len() - 1,
    ensures
        q_eq(sp_dr(u, j, dx), sp_dr(v, j, dx)),
{
    lemma_add_cong(u[j + 1], v[j + 1], u[j], v[j]);
    lemma_div_cong(q_sub(u[j + 1], u[j]), q_sub(v[j + 1], v[j]), dx, dx);
}

proof fn lemma_grad1_cong(u: Seq<Q>, v: Seq<Q>, i: int, dx: Q)
    requires
        qs_eq(u, v),
        qs_wf(u),
        qs_wf(v),
        dx.d > 0,
        dx.n > 0,
        1 <= i < u.len() - 1,
    ensures
        q_eq(sp_grad1(u, i, dx), sp_grad1(v, i, dx)),
{
    lemma_add_cong(u[i + 1], v[i + 1], u[i - 1], v[i - 1]);
    lemma_div_cong(q_sub(u[i + 1], u[i - 1]), q_sub(v[i + 1], v[i - 1]), q_mul(q_int(2), dx),
        q_mul(q_int(2), dx));
}

proof fn lemma_grad2_cong(u: Seq<Q>, v: Seq<Q>, i: int, dx: Q)
    requires
        qs_eq(u, v),
        qs_wf(u),
        qs_wf(v),
        dx.d > 0,
        dx.n > 0,
        1 <= i < u.len() - 1,
    ensures
        q_eq(sp_grad2(u, i, dx), sp_grad2(v, i, dx)),
{
    lemma_add_cong(q_int(2), q_int(2), u[i], v[i]);
    lemma_add_cong(u[i + 1], v[i + 1], q_mul(q_int(2), u[i]), q_mul(q_int(2), v[i]));
    lemma_add_cong(
        q_sub(u[i + 1], q_mul(q_int(2), u[i])),
        q_sub(v[i + 1], q_mul(q_int(2), v[i])),
        u[i - 1],
        v[i - 1],
    );
    assert((2 * dx.n) * dx.n > 0) by (nonlinear_arith)
        requires
            dx.n > 0,
    ;
    lemma_div_cong(
        q_add(q_sub(u[i + 1], q_mul(q_int(2), u[i])), u[i - 1]),
        q_add(q_sub(v[i + 1], q_mul(q_int(2), v[i])), v[i - 1]),
        q_mul(q_mul(q_int(2), dx), dx),
        q_mul(q_mul(q_int(2), dx), dx),
    );
}

proof fn lemma_d1h_cong(u: Seq<Q>, v: Seq<Q>, j: int, dx: Q)
    requires
        qs_eq(u, v),
        qs_wf(u),
        qs_wf(v),
        dx.d > 0,
        dx.n > 0,
        0 <= j < u.len() - 1,
    ensures
        q_eq(sp_d1h(u, j, dx), sp_d1h(v, j, dx)),
{
    lemma_add_cong(u[j + 1], v[j + 1], u[j], v[j]);
    lemma_div_cong(q_sub(u[j + 1], u[j]), q_sub(v[j + 1], v[j]), dx, dx);
}

proof fn lemma_d2m_cong(u: Seq<Q>, v: Seq<Q>, j: int, dx: Q)
    requires
        qs_eq(u, v),
        qs_wf(u),
        qs_wf(v),
        dx.d > 0,
        dx.n > 0,
        1 <= j < u.len() - 1,
    ensures
        q_eq(sp_d2m(u, j, dx), sp_d2m(v, j, dx)),
{
    lemma_d1h_cong(u, v, j, dx);
    lemma_d1h_cong(u, v, j - 1, dx);
    lemma_add_cong(sp_d1h(u, j, dx), sp_d1h(v, j, dx), sp_d1h(u, j - 1, dx), sp_d1h(v, j - 1, dx));
    lemma_div_cong(
        q_sub(sp_d1h(u, j, dx), sp_d1h(u, j - 1, dx)),
        q_sub(sp_d1h(v, j, dx), sp_d1h(v, j - 1, dx)),
        q_mul(q_int(2), dx),
        q_mul(q_int(2), dx),
    );
}

proof fn lemma_d3h_cong(u: Seq<Q>, v: Seq<Q>, j: int, dx: Q)
    requires
        qs_eq(u, v),
        qs_wf(u),
        qs_wf(v),
        dx.d > 0,
        dx.n > 0,
        1 <= j < u.len() - 2,
    ensures
        q_eq(sp_d3h(u, j, dx), sp_d3h(v, j, dx)),
{
    lemma_d2m_cong(u, v, j + 1, dx);
    lemma_d2m_cong(u, v, j, dx);
    lemma_add_cong(sp_d2m(u, j + 1, dx), sp_d2m(v, j + 1, dx), sp_d2m(u, j, dx), sp_d2m(v, j, dx));
    lemma_div_cong(
        q_sub(sp_d2m(u, j + 1, dx), sp_d2m(u, j, dx)),
        q_sub(sp_d2m(v, j + 1, dx), sp_d2m(v, j, dx)),
        q_mul(q_int(3), dx),
        q_mul(q_int(3), dx),
    );
}

proof fn lemma_eno_inc_cong(u: Seq<Q>, v: Seq<Q>, i: int, d: DescV)
    requires
        qs_eq(u, v),
        qs_wf(u),
        qs_wf(v),
        desc_wf(d),
        3 <= i < u.len() - 3,
    ensures
        q_eq(sp_eno_inc(u, i, d), sp_eno_inc(v, i, d)),
{
    let dx = d.delta_x;
    assert(q_mul(q_int(2), dx).n == 2 * dx.n);
    assert(q_mul(q_int(3), dx).n == 3 * dx.n);
    assert(q_mul(q_int(-6), dx).n == -6 * dx.n);
    let b1 = q_le(q_int(0), d.vel);
    let k = if b1 { i - 1 } else { i };
    lemma_d2m_cong(u, v, k, dx);
    lemma_d2m_cong(u, v, k + 1, dx);
    lemma_abs_cong(sp_d2m(u, k, dx), sp_d2m(v, k, dx));
    lemma_abs_cong(sp_d2m(u, k + 1, dx), sp_d2m(v, k + 1, dx));
    lemma_le_cong(
        q_abs(sp_d2m(u, k, dx)),
        q_abs(sp_d2m(v, k, dx)),
        q_abs(sp_d2m(u, k + 1, dx)),
        q_abs(sp_d2m(v, k + 1, dx)),
    );
    let b2 = q_le(q_abs(sp_d2m(u, k, dx)), q_abs(sp_d2m(u, k + 1, dx)));
    let l = if b2 { k - 1 } else { k };
    lemma_d3h_cong(u, v, l, dx);
    lemma_d3h_cong(u, v, l + 1, dx);
    lemma_abs_cong(sp_d3h(u, l, dx), sp_d3h(v, l, dx));
    lemma_abs_cong(sp_d3h(u, l + 1, dx), sp_d3h(v, l + 1, dx));
    lemma_le_cong(
        q_abs(sp_d3h(u, l, dx)),
        q_abs(sp_d3h(v, l, dx)),
        q_abs(sp_d3h(u, l + 1, dx)),
        q_abs(sp_d3h(v, l + 1, dx)),
    );
    // q1
    lemma_add_cong(u[i], v[i], u[i - 1], v[i - 1]);
    lemma_div_cong(q_sub(u[i], u[i - 1]), q_sub(v[i], v[i - 1]), dx, dx);
    // q2, both branches
    lemma_add_cong(q_int(2), q_int(2), u[i - 1], v[i - 1]);
    lemma_add_cong(q_int(2), q_int(2), u[i], v[i]);
    lemma_add_cong(u[i], v[i], q_mul(q_int(2), u[i - 1]), q_mul(q_int(2), v[i - 1]));
    lemma_add_cong(
        q_sub(u[i], q_mul(q_int(2), u[i - 1])),
        q_sub(v[i], q_mul(q_int(2), v[i - 1])),
        u[i - 2],
        v[i - 2],
    );
    lemma_div_cong(
        q_add(q_sub(u[i], q_mul(q_int(2), u[i - 1])), u[i - 2]),
        q_add(q_sub(v[i], q_mul(q_int(2), v[i - 1])), v[i - 2]),
        q_mul(q_int(2), dx),
        q_mul(q_int(2), dx),
    );
    lemma_add_cong(u[i + 1], v[i + 1], q_mul(q_int(2), u[i]), q_mul(q_int(2), v[i]));
    lemma_add_cong(
        q_sub(u[i + 1], q_mul(q_int(2), u[i])),
        q_sub(v[i + 1], q_mul(q_int(2), v[i])),
        u[i - 1],
        v[i - 1],
    );
    lemma_div_cong(
        q_add(q_sub(u[i + 1], q_mul(q_int(2), u[i])), u[i - 1]),
        q_add(q_sub(v[i + 1], q_mul(q_int(2), v[i])), v[i - 1]),
        q_mul(q_int(2), dx),
        q_mul(q_int(2), dx),
    );
    // q3, all four branch formulas
    lemma_add_cong(q_int(3), q_int(3), u[i - 1], v[i - 1]);
    lemma_add_cong(q_int(3), q_int(3), u[i - 2], v[i - 2]);
    lemma_add_cong(q_int(3), q_int(3), u[i], v[i]);
    lemma_add_cong(q_int(3), q_int(3), u[i + 1], v[i + 1]);
    lemma_eno_q3_cong(u, v, i, i - 1, i - 2, i - 3, dx);
    lemma_eno_q3_cong(u, v, i + 1, i, i - 1, i - 2, dx);
    lemma_eno_q3_cong(u, v, i + 2, i + 1, i, i - 1, dx);
    // combine
    let q1u = q_div(q_sub(u[i], u[i - 1]), dx);
    let q1v = q_div(q_sub(v[i], v[i - 1]), dx);
    let q2u = (if b2 {
        q_div(q_add(q_sub(u[i], q_mul(q_int(2), u[i - 1])), u[i - 2]), q_mul(q_int(2), dx))
    } else {
        q_div(q_add(q_sub(u[i + 1], q_mul(q_int(2), u[i])), u[i - 1]), q_mul(q_int(2), dx))
    });
    let q2v = (if b2 {
        q_div(q_add(q_sub(v[i], q_mul(q_int(2), v[i - 1])), v[i - 2]), q_mul(q_int(2), dx))
    } else {
        q_div(q_add(q_sub(v[i + 1], q_mul(q_int(2), v[i])), v[i - 1]), q_mul(q_int(2), dx))
    });
    lemma_add_cong(q1u, q1v, q2u, q2v);
    let b3 = q_le(q_abs(sp_d3h(u, l, dx)), q_abs(sp_d3h(u, l + 1, dx)));
    let q3u = sp_eno_q3(u, i, b2, b3, dx);
    let q3v = sp_eno_q3(v, i, b2, b3, dx);
    lemma_add_cong(q_add(q1u, q2u), q_add(q1v, q2v), q3u, q3v);
    lemma_add_cong(
        q_add(q_add(q1u, q2u), q3u),
        q_add(q_add(q1v, q2v), q3v),
        p_of(d),
        p_of(d),
    );
}

/// The third-order numerators `a - 3b + 3c - e` over both divisors.
proof fn lemma_eno_q3_cong(u: Seq<Q>, v: Seq<Q>, a: int, b: int, c: int, e: int, dx: Q)
    requires
        qs_eq(u, v),
        qs_wf(u),
        qs_wf(v),
        dx.d > 0,
        dx.n > 0,
        0 <= e,
        a < u.len(),
        e < b < u.len(),
        e < c < u.len(),
        0 <= a,
        0 <= b,
        0 <= c,
    ensures
        q_eq(
            q_div(
                q_sub(q_add(q_sub(u[a], q_mul(q_int(3), u[b])), q_mul(q_int(3), u[c])), u[e]),
                q_mul(q_int(3), dx),
            ),
            q_div(
                q_sub(q_add(q_sub(v[a], q_mul(q_int(3), v[b])), q_mul(q_int(3), v[c])), v[e]),
                q_mul(q_int(3), dx),
            ),
        ),
        q_eq(
            q_div(
                q_sub(q_add(q_sub(u[a], q_mul(q_int(3), u[b])), q_mul(q_int(3), u[c])), u[e]),
                q_mul(q_int(-6), dx),
            ),
            q_div(
                q_sub(q_add(q_sub(v[a], q_mul(q_int(3), v[b])), q_mul(q_int(3), v[c])), v[e]),
                q_mul(q_int(-6), dx),
            ),
        ),
{
    lemma_add_cong(q_int(3), q_int(3), u[b], v[b]);
    lemma_add_cong(q_int(3), q_int(3), u[c], v[c]);
    lemma_add_cong(u[a], v[a], q_mul(q_int(3), u[b]), q_mul(q_int(3), v[b]));
    lemma_add_cong(
        q_sub(u[a], q_mul(q_int(3), u[b])),
        q_sub(v[a], q_mul(q_int(3), v[b])),
        q_mul(q_int(3), u[c]),
        q_mul(q_int(3), v[c]),
    );
    lemma_add_cong(
        q_add(q_sub(u[a], q_mul(q_int(3), u[b])), q_mul(q_int(3), u[c])),
        q_add(q_sub(v[a], q_mul(q_int(3), v[b])), q_mul(q_int(3), v[c])),
        u[e],
        v[e],
    );
    let nu = q_sub(q_add(q_sub(u[a], q_mul(q_int(3), u[b])), q_mul(q_int(3), u[c])), u[e]);
    let nv = q_sub(q_add(q_sub(v[a], q_mul(q_int(3), v[b])), q_mul(q_int(3), v[c])), v[e]);
    lemma_div_cong(nu, nv, q_mul(q_int(3), dx), q_mul(q_int(3), dx));
    lemma_div_cong(nu, nv, q_mul(q_int(-6), dx), q_mul(q_int(-6), dx));
}

/// The third-order correction, by branch.
pub open spec fn sp_eno_q3(u: Seq<Q>, i: int, b2: bool, b3: bool, dx: Q) -> Q {
    if b2 && b3 {
        q_div(
            q_sub(q_add(q_sub(u[i], q_mul(q_int(3), u[i - 1])), q_mul(q_int(3), u[i - 2])), u[i - 3]),
            q_mul(q_int(3), dx),
        )
    } else if b2 && !b3 {
        q_div(
            q_sub(q_add(q_sub(u[i + 1], q_mul(q_int(3), u[i])), q_mul(q_int(3), u[i - 1])), u[i - 2]),
            q_mul(q_int(3), dx),
        )
    } else if !b2 && b3 {
        q_div(
            q_sub(q_add(q_sub(u[i + 1], q_mul(q_int(3), u[i])), q_mul(q_int(3), u[i - 1])), u[i - 2]),
            q_mul(q_int(-6), dx),
        )
    } else {
        q_div(
            q_sub(q_add(q_sub(u[i + 2], q_mul(q_int(3), u[i + 1])), q_mul(q_int(3), u[i])), u[i - 1]),
            q_mul(q_int(-6), dx),
        )
    }
}

proof fn lemma_weno_inc_cong(u: Seq<Q>, v: Seq<Q>, i: int, d: DescV)
    requires
        qs_eq(u, v),
        qs_wf(u),
        qs_wf(v),
        desc_wf(d),
        3 <= i < u.len() - 3,
    ensures
        q_eq(sp_weno_inc(u, i, d), sp_weno_inc(v, i, d)),
{
    let dx = d.delta_x;
    lemma_weno_pos(u, i, dx);
    lemma_weno_pos(v, i, dx);
    lemma_dl_cong(u, v, i - 2, dx);
    lemma_dl_cong(u, v, i - 1, dx);
    lemma_dl_cong(u, v, i, dx);
    lemma_dl_cong(u, v, i + 1, dx);
    lemma_dl_cong(u, v, i + 2, dx);
    let um2 = sp_dl(u, i - 2, dx);
    let um1 = sp_dl(u, i - 1, dx);
    let u0 = sp_dl(u, i, dx);
    let up1 = sp_dl(u, i + 1, dx);
    let up2 = sp_dl(u, i + 2, dx);
    let vm2 = sp_dl(v, i - 2, dx);
    let vm1 = sp_dl(v, i - 1, dx);
    let v0 = sp_dl(v, i, dx);
    let vp1 = sp_dl(v, i + 1, dx);
    let vp2 = sp_dl(v, i + 2, dx);
    // candidate derivatives
    lemma_add_cong(q_frac(1, 3), q_frac(1, 3), um2, vm2);
    lemma_add_cong(q_frac(7, 6), q_frac(7, 6), um1, vm1);
    lemma_add_cong(q_frac(11, 6), q_frac(11, 6), u0, v0);
    lemma_add_cong(q_frac(-1, 6), q_frac(-1, 6), um1, vm1);
    lemma_add_cong(q_frac(5, 6), q_frac(5, 6), u0, v0);
    lemma_add_cong(q_frac(1, 3), q_frac(1, 3), up1, vp1);
    lemma_add_cong(q_frac(1, 3), q_frac(1, 3), u0, v0);
    lemma_add_cong(q_frac(5, 6), q_frac(5, 6), up1, vp1);
    lemma_add_cong(q_frac(1, 6), q_frac(1, 6), up2, vp2);
    lemma_add_cong(
        q_mul(q_frac(1, 3), um2),
        q_mul(q_frac(1, 3), vm2),
        q_mul(q_frac(7, 6), um1),
        q_mul(q_frac(7, 6), vm1),
    );
    lemma_add_cong(
        q_sub(q_mul(q_frac(1, 3), um2), q_mul(q_frac(7, 6), um1)),
        q_sub(q_mul(q_frac(1, 3), vm2), q_mul(q_frac(7, 6), vm1)),
        q_mul(q_frac(11, 6), u0),
        q_mul(q_frac(11, 6), v0),
    );
    lemma_add_cong(
        q_mul(q_frac(-1, 6), um1),
        q_mul(q_frac(-1, 6), vm1),
        q_mul(q_frac(5, 6), u0),
        q_mul(q_frac(5, 6), v0),
    );
    lemma_add_cong(
        q_add(q_mul(q_frac(-1, 6), um1), q_mul(q_frac(5, 6), u0)),
        q_add(q_mul(q_frac(-1, 6), vm1), q_mul(q_frac(5, 6), v0)),
        q_mul(q_frac(1, 3), up1),
        q_mul(q_frac(1, 3), vp1),
    );
    lemma_add_cong(
        q_mul(q_frac(1, 3), u0),
        q_mul(q_frac(1, 3), v0),
        q_mul(q_frac(5, 6), up1),
        q_mul(q_frac(5, 6), vp1),
    );
    lemma_add_cong(
        q_add(q_mul(q_frac(1, 3), u0), q_mul(q_frac(5, 6), up1)),
        q_add(q_mul(q_frac(1, 3), v0), q_mul(q_frac(5, 6), vp1)),
        q_mul(q_frac(1, 6), up2),
        q_mul(q_frac(1, 6), vp2),
    );
    // smoothness indicators
    lemma_weno_s_cong(u, v, i, d);
    // unnormalized weights
    let s1u = q_add(sp_w_s1(u, i, dx), sp_eps());
    let s1v = q_add(sp_w_s1(v, i, dx), sp_eps());
    let s2u = q_add(sp_w_s2(u, i, dx), sp_eps());
    let s2v = q_add(sp_w_s2(v, i, dx), sp_eps());
    let s3u = q_add(sp_w_s3(u, i, dx), sp_eps());
    let s3v = q_add(sp_w_s3(v, i, dx), sp_eps());
    lemma_add_cong(sp_w_s1(u, i, dx), sp_w_s1(v, i, dx), sp_eps(), sp_eps());
    lemma_add_cong(sp_w_s2(u, i, dx), sp_w_s2(v, i, dx), sp_eps(), sp_eps());
    lemma_add_cong(sp_w_s3(u, i, dx), sp_w_s3(v, i, dx), sp_eps(), sp_eps());
    lemma_add_cong(s1u, s1v, s1u, s1v);
    lemma_add_cong(s2u, s2v, s2u, s2v);
    lemma_add_cong(s3u, s3v, s3u, s3v);
    lemma_div_cong(q_frac(1, 10), q_frac(1, 10), q_mul(s1u, s1u), q_mul(s1v, s1v));
    lemma_div_cong(q_frac(6, 10), q_frac(6, 10), q_mul(s2u, s2u), q_mul(s2v, s2v));
    lemma_div_cong(q_frac(3, 10), q_frac(3, 10), q_mul(s3u, s3u), q_mul(s3v, s3v));
    lemma_add_cong(sp_w_a1(u, i, dx), sp_w_a1(v, i, dx), sp_w_a2(u, i, dx), sp_w_a2(v, i, dx));
    lemma_add_cong(
        q_add(sp_w_a1(u, i, dx), sp_w_a2(u, i, dx)),
        q_add(sp_w_a1(v, i, dx), sp_w_a2(v, i, dx)),
        sp_w_a3(u, i, dx),
        sp_w_a3(v, i, dx),
    );
    lemma_div_cong(sp_w_a1(u, i, dx), sp_w_a1(v, i, dx), sp_w_asum(u, i, dx), sp_w_asum(v, i, dx));
    lemma_div_cong(sp_w_a2(u, i, dx), sp_w_a2(v, i, dx), sp_w_asum(u, i, dx), sp_w_asum(v, i, dx));
    lemma_div_cong(sp_w_a3(u, i, dx), sp_w_a3(v, i, dx), sp_w_asum(u, i, dx), sp_w_asum(v, i, dx));
    // the blend
    lemma_add_cong(sp_w_w1(u, i, dx), sp_w_w1(v, i, dx), sp_w_u1(u, i, dx), sp_w_u1(v, i, dx));
    lemma_add_cong(sp_w_w2(u, i, dx), sp_w_w2(v, i, dx), sp_w_u2(u, i, dx), sp_w_u2(v, i, dx));
    lemma_add_cong(sp_w_w3(u, i, dx), sp_w_w3(v, i, dx), sp_w_u3(u, i, dx), sp_w_u3(v, i, dx));
    lemma_add_cong(
        q_mul(sp_w_w1(u, i, dx), sp_w_u1(u, i, dx)),
        q_mul(sp_w_w1(v, i, dx), sp_w_u1(v, i, dx)),
        q_mul(sp_w_w2(u, i, dx), sp_w_u2(u, i, dx)),
        q_mul(sp_w_w2(v, i, dx), sp_w_u2(v, i, dx)),
    );
    lemma_add_cong(
        q_add(
            q_mul(sp_w_w1(u, i, dx), sp_w_u1(u, i, dx)),
            q_mul(sp_w_w2(u, i, dx), sp_w_u2(u, i, dx)),
        ),
        q_add(
            q_mul(sp_w_w1(v, i, dx), sp_w_u1(v, i, dx)),
            q_mul(sp_w_w2(v, i, dx), sp_w_u2(v, i, dx)),
        ),
        q_mul(sp_w_w3(u, i, dx), sp_w_u3(u, i, dx)),
        q_mul(sp_w_w3(v, i, dx), sp_w_u3(v, i, dx)),
    );
    lemma_add_cong(
        q_add(
            q_add(
                q_mul(sp_w_w1(u, i, dx), sp_w_u1(u, i, dx)),
                q_mul(sp_w_w2(u, i, dx), sp_w_u2(u, i, dx)),
            ),
            q_mul(sp_w_w3(u, i, dx), sp_w_u3(u, i, dx)),
        ),
        q_add(
            q_add(
                q_mul(sp_w_w1(v, i, dx), sp_w_u1(v, i, dx)),
                q_mul(sp_w_w2(v, i, dx), sp_w_u2(v, i, dx)),
            ),
            q_mul(sp_w_w3(v, i, dx), sp_w_u3(v, i, dx)),
        ),
        p_of(d),
        p_of(d),
    );
}

/// Congruence of the three smoothness indicators.
proof fn lemma_weno_s_cong(u: Seq<Q>, v: Seq<Q>, i: int, d: DescV)
    requires
        qs_eq(u, v),
        qs_wf(u),
        qs_wf(v),
        desc_wf(d),
        3 <= i < u.len() - 3,
    ensures
        q_eq(sp_w_s1(u, i, d.delta_x), sp_w_s1(v, i, d.delta_x)),
        q_eq(sp_w_s2(u, i, d.delta_x), sp_w_s2(v, i, d.delta_x)),
        q_eq(sp_w_s3(u, i, d.delta_x), sp_w_s3(v, i, d.delta_x)),
{
    let dx = d.delta_x;
    lemma_dl_cong(u, v, i - 2, dx);
    lemma_dl_cong(u, v, i - 1, dx);
    lemma_dl_cong(u, v, i, dx);
    lemma_dl_cong(u, v, i + 1, dx);
    lemma_dl_cong(u, v, i + 2, dx);
    let um2 = sp_dl(u, i - 2, dx);
    let um1 = sp_dl(u, i - 1, dx);
    let u0 = sp_dl(u, i, dx);
    let up1 = sp_dl(u, i + 1, dx);
    let up2 = sp_dl(u, i + 2, dx);
    let vm2 = sp_dl(v, i - 2, dx);
    let vm1 = sp_dl(v, i - 1, dx);
    let v0 = sp_dl(v, i, dx);
    let vp1 = sp_dl(v, i + 1, dx);
    let vp2 = sp_dl(v, i + 2, dx);
    lemma_add_cong(q_int(2), q_int(2), um1, vm1);
    lemma_add_cong(q_int(4), q_int(4), um1, vm1);
    lemma_add_cong(q_int(2), q_int(2), u0, v0);
    lemma_add_cong(q_int(3), q_int(3), u0, v0);
    lemma_add_cong(q_int(2), q_int(2), up1, vp1);
    lemma_add_cong(q_int(4), q_int(4), up1, vp1);
    lemma_weno_s_one(um2, vm2, um1, vm1, u0, v0, q_int(2), q_int(4), q_int(3));
    lemma_weno_s_one(um1, vm1, u0, v0, up1, vp1, q_int(2), q_int(0), q_int(0));
    // s2's second term is (d(i-1) - d(i+1))^2
    lemma_add_cong(um1, vm1, up1, vp1);
    lemma_add_cong(q_sub(um1, up1), q_sub(vm1, vp1), q_sub(um1, up1), q_sub(vm1, vp1));
    lemma_add_cong(q_int(2), q_int(2), q_mul(q_sub(um1, up1), q_sub(um1, up1)), q_mul(
        q_sub(vm1, vp1),
        q_sub(vm1, vp1),
    ));
    // s3
    lemma_weno_s_one(u0, v0, up1, vp1, up2, vp2, q_int(2), q_int(4), q_int(0));
    lemma_weno_s3_extra(u0, v0, up1, vp1, up2, vp2);
    // assemble: t-squares and weighted sums
    lemma_weno_s_sum(um2, vm2, um1, vm1, u0, v0, up1, vp1, up2, vp2);
}

/// Congruence of `a - k1 b + (k2-ish) c` shaped stencil terms; helper that
/// proves the squares of the two Jiang-Shu combinations stay congruent.
proof fn lemma_weno_s_one(
    a: Q, a2: Q, b: Q, b2: Q, c: Q, c2: Q, k1: Q, k2: Q, k3: Q,
)
    requires
        q_eq(a, a2),
        q_eq(b, b2),
        q_eq(c, c2),
    ensures
        q_eq(
            q_add(q_sub(a, q_mul(k1, b)), c),
            q_add(q_sub(a2, q_mul(k1, b2)), c2),
        ),
        q_eq(
            q_add(q_sub(a, q_mul(k2, b)), q_mul(k3, c)),
            q_add(q_sub(a2, q_mul(k2, b2)), q_mul(k3, c2)),
        ),
{
    lemma_add_cong(k1, k1, b, b2);
    lemma_add_cong(a, a2, q_mul(k1, b), q_mul(k1, b2));
    lemma_add_cong(q_sub(a, q_mul(k1, b)), q_sub(a2, q_mul(k1, b2)), c, c2);
    lemma_add_cong(k2, k2, b, b2);
    lemma_add_cong(k3, k3, c, c2);
    lemma_add_cong(a, a2, q_mul(k2, b), q_mul(k2, b2));
    lemma_add_cong(q_sub(a, q_mul(k2, b)), q_sub(a2, q_mul(k2, b2)), q_mul(k3, c), q_mul(k3, c2));
}

/// The second Jiang-Shu combination of `s3`: `3 d(i) - 4 d(i+1) + d(i+2)`.
proof fn lemma_weno_s3_extra(a: Q, a2: Q, b: Q, b2: Q, c: Q, c2: Q)
    requires
        q_eq(a, a2),
        q_eq(b, b2),
        q_eq(c, c2),
    ensures
        q_eq(
            q_add(q_sub(q_mul(q_int(3), a), q_mul(q_int(4), b)), c),
            q_add(q_sub(q_mul(q_int(3), a2), q_mul(q_int(4), b2)), c2),
        ),
{
    lemma_add_cong(q_int(3), q_int(3), a, a2);
    lemma_add_cong(q_int(4), q_int(4), b, b2);
    lemma_add_cong(q_mul(q_int(3), a), q_mul(q_int(3), a2), q_mul(q_int(4), b), q_mul(q_int(4), b2));
    lemma_add_cong(
        q_sub(q_mul(q_int(3), a), q_mul(q_int(4), b)),
        q_sub(q_mul(q_int(3), a2), q_mul(q_int(4), b2)),
        c,
        c2,
    );
}

/// Assembles the congruence of the three weighted square sums from the
/// congruences of the stencil combinations.
proof fn lemma_weno_s_sum(
    um2: Q, vm2: Q, um1: Q, vm1: Q, u0: Q, v0: Q, up1: Q, vp1: Q, up2: Q, vp2: Q,
)
    requires
        q_eq(um2, vm2),
        q_eq(um1, vm1),
        q_eq(u0, v0),
        q_eq(up1, vp1),
        q_eq(up2, vp2),
    ensures
        q_eq(
            q_add(
                q_mul(q_frac(13, 12), q_mul(
                    q_add(q_sub(um2, q_mul(q_int(2), um1)), u0),
                    q_add(q_sub(um2, q_mul(q_int(2), um1)), u0),
                )),
                q_mul(q_frac(1, 4), q_mul(
                    q_add(q_sub(um2, q_mul(q_int(4), um1)), q_mul(q_int(3), u0)),
                    q_add(q_sub(um2, q_mul(q_int(4), um1)), q_mul(q_int(3), u0)),
                )),
            ),
            q_add(
                q_mul(q_frac(13, 12), q_mul(
                    q_add(q_sub(vm2, q_mul(q_int(2), vm1)), v0),
                    q_add(q_sub(vm2, q_mul(q_int(2), vm1)), v0),
                )),
                q_mul(q_frac(1, 4), q_mul(
                    q_add(q_sub(vm2, q_mul(q_int(4), vm1)), q_mul(q_int(3), v0)),
                    q_add(q_sub(vm2, q_mul(q_int(4), vm1)), q_mul(q_int(3), v0)),
                )),
            ),
        ),
        q_eq(
            q_add(
                q_mul(q_frac(13, 12), q_mul(
                    q_add(q_sub(um1, q_mul(q_int(2), u0)), up1),
                    q_add(q_sub(um1, q_mul(q_int(2), u0)), up1),
                )),
                q_mul(q_frac(1, 4), q_mul(q_sub(um1, up1), q_sub(um1, up1))),
            ),
            q_add(
                q_mul(q_frac(13, 12), q_mul(
                    q_add(q_sub(vm1, q_mul(q_int(2), v0)), vp1),
                    q_add(q_sub(vm1, q_mul(q_int(2), v0)), vp1),
                )),
                q_mul(q_frac(1, 4), q_mul(q_sub(vm1, vp1), q_sub(vm1, vp1))),
            ),
        ),
        q_eq(
            q_add(
                q_mul(q_frac(13, 12), q_mul(
                    q_add(q_sub(u0, q_mul(q_int(2), up1)), up2),
                    q_add(q_sub(u0, q_mul(q_int(2), up1)), up2),
                )),
                q_mul(q_frac(1, 4), q_mul(
                    q_add(q_sub(q_mul(q_int(3), u0), q_mul(q_int(4), up1)), up2),
                    q_add(q_sub(q_mul(q_int(3), u0), q_mul(q_int(4), up1)), up2),
                )),
            ),
            q_add(
                q_mul(q_frac(13, 12), q_mul(
                    q_add(q_sub(v0, q_mul(q_int(2), vp1)), vp2),
                    q_add(q_sub(v0, q_mul(q_int(2), vp1)), vp2),
                )),
                q_mul(q_frac(1, 4), q_mul(
                    q_add(q_sub(q_mul(q_int(3), v0), q_mul(q_int(4), vp1)), vp2),
                    q_add(q_sub(q_mul(q_int(3), v0), q_mul(q_int(4), vp1)), vp2),
                )),
            ),
        ),
{
    lemma_weno_s_pair(um2, vm2, um1, vm1, u0, v0);
    lemma_weno_s_pair2(um1, vm1, u0, v0, up1, vp1);
    lemma_weno_s_pair3(u0, v0, up1, vp1, up2, vp2);
}

/// One weighted square sum: `13/12 t^2 + 1/4 r^2` for `s1`'s combinations.
proof fn lemma_weno_s_pair(a: Q, a2: Q, b: Q, b2: Q, c: Q, c2: Q)
    requires
        q_eq(a, a2),
        q_eq(b, b2),
        q_eq(c, c2),
    ensures
        q_eq(
            q_add(
                q_mul(q_frac(13, 12), q_mul(
                    q_add(q_sub(a, q_mul(q_int(2), b)), c),
                    q_add(q_sub(a, q_mul(q_int(2), b)), c),
                )),
                q_mul(q_frac(1, 4), q_mul(
                    q_add(q_sub(a, q_mul(q_int(4), b)), q_mul(q_int(3), c)),
                    q_add(q_sub(a, q_mul(q_int(4), b)), q_mul(q_int(3), c)),
                )),
            ),
            q_add(
                q_mul(q_frac(13, 12), q_mul(
                    q_add(q_sub(a2, q_mul(q_int(2), b2)), c2),
                    q_add(q_sub(a2, q_mul(q_int(2), b2)), c2),
                )),
                q_mul(q_frac(1, 4), q_mul(
                    q_add(q_sub(a2, q_mul(q_int(4), b2)), q_mul(q_int(3), c2)),
                    q_add(q_sub(a2, q_mul(q_int(4), b2)), q_mul(q_int(3), c2)),
                )),
            ),
        ),
{
    lemma_weno_s_one(a, a2, b, b2, c, c2, q_int(2), q_int(4), q_int(3));
    let t = q_add(q_sub(a, q_mul(q_int(2), b)), c);
    let t2 = q_add(q_sub(a2, q_mul(q_int(2), b2)), c2);
    let r = q_add(q_sub(a, q_mul(q_int(4), b)), q_mul(q_int(3), c));
    let r2 = q_add(q_sub(a2, q_mul(q_int(4), b2)), q_mul(q_int(3), c2));
    lemma_add_cong(t, t2, t, t2);
    lemma_add_cong(r, r2, r, r2);
    lemma_add_cong(q_frac(13, 12), q_frac(13, 12), q_mul(t, t), q_mul(t2, t2));
    lemma_add_cong(q_frac(1, 4), q_frac(1, 4), q_mul(r, r), q_mul(r2, r2));
    lemma_add_cong(
        q_mul(q_frac(13, 12), q_mul(t, t)),
        q_mul(q_frac(13, 12), q_mul(t2, t2)),
        q_mul(q_frac(1, 4), q_mul(r, r)),
        q_mul(q_frac(1, 4), q_mul(r2, r2)),
    );
}

/// As above for `s2`: second combination is a plain difference.
proof fn lemma_weno_s_pair2(a: Q, a2: Q, b: Q, b2: Q, c: Q, c2: Q)
    requires
        q_eq(a, a2),
        q_eq(b, b2),
        q_eq(c, c2),
    ensures
        q_eq(
            q_add(
                q_mul(q_frac(13, 12), q_mul(
                    q_add(q_sub(a, q_mul(q_int(2), b)), c),
                    q_add(q_sub(a, q_mul(q_int(2), b)), c),
                )),
                q_mul(q_frac(1, 4), q_mul(q_sub(a, c), q_sub(a, c))),
            ),
            q_add(
                q_mul(q_frac(13, 12), q_mul(
                    q_add(q_sub(a2, q_mul(q_int(2), b2)), c2),
                    q_add(q_sub(a2, q_mul(q_int(2), b2)), c2),
                )),
                q_mul(q_frac(1, 4), q_mul(q_sub(a2, c2), q_sub(a2, c2))),
            ),
        ),
{
    lemma_add_cong(q_int(2), q_int(2), b, b2);
    lemma_add_cong(a, a2, q_mul(q_int(2), b), q_mul(q_int(2), b2));
    lemma_add_cong(q_sub(a, q_mul(q_int(2), b)), q_sub(a2, q_mul(q_int(2), b2)), c, c2);
    let t = q_add(q_sub(a, q_mul(q_int(2), b)), c);
    let t2 = q_add(q_sub(a2, q_mul(q_int(2), b2)), c2);
    lemma_add_cong(t, t2, t, t2);
    lemma_add_cong(a, a2, c, c2);
    lemma_add_cong(q_sub(a, c), q_sub(a2, c2), q_sub(a, c), q_sub(a2, c2));
    lemma_add_cong(q_frac(13, 12), q_frac(13, 12), q_mul(t, t), q_mul(t2, t2));
    lemma_add_cong(q_frac(1, 4), q_frac(1, 4), q_mul(q_sub(a, c), q_sub(a, c)), q_mul(
        q_sub(a2, c2),
        q_sub(a2, c2),
    ));
    lemma_add_cong(
        q_mul(q_frac(13, 12), q_mul(t, t)),
        q_mul(q_frac(13, 12), q_mul(t2, t2)),
        q_mul(q_frac(1, 4), q_mul(q_sub(a, c), q_sub(a, c))),
        q_mul(q_frac(1, 4), q_mul(q_sub(a2, c2), q_sub(a2, c2))),
    );
}

/// As above for `s3`: second combination is `3a - 4b + c`.
proof fn lemma_weno_s_pair3(a: Q, a2: Q, b: Q, b2: Q, c: Q, c2: Q)
    requires
        q_eq(a, a2),
        q_eq(b, b2),
        q_eq(c, c2),
    ensures
        q_eq(
            q_add(
                q_mul(q_frac(13, 12), q_mul(
                    q_add(q_sub(a, q_mul(q_int(2), b)), c),
                    q_add(q_sub(a, q_mul(q_int(2), b)), c),
                )),
                q_mul(q_frac(1, 4), q_mul(
                    q_add(q_sub(q_mul(q_int(3), a), q_mul(q_int(4), b)), c),
                    q_add(q_sub(q_mul(q_int(3), a), q_mul(q_int(4), b)), c),
                )),
            ),
            q_add(
                q_mul(q_frac(13, 12), q_mul(
                    q_add(q_sub(a2, q_mul(q_int(2), b2)), c2),
                    q_add(q_sub(a2, q_mul(q_int(2), b2)), c2),
                )),
                q_mul(q_frac(1, 4), q_mul(
                    q_add(q_sub(q_mul(q_int(3), a2), q_mul(q_int(4), b2)), c2),
                    q_add(q_sub(q_mul(q_int(3), a2), q_mul(q_int(4), b2)), c2),
                )),
            ),
        ),
{
    lemma_add_cong(q_int(2), q_int(2), b, b2);
    lemma_add_cong(a, a2, q_mul(q_int(2), b), q_mul(q_int(2), b2));
    lemma_add_cong(q_sub(a, q_mul(q_int(2), b)), q_sub(a2, q_mul(q_int(2), b2)), c, c2);
    let t = q_add(q_sub(a, q_mul(q_int(2), b)), c);
    let t2 = q_add(q_sub(a2, q_mul(q_int(2), b2)), c2);
    lemma_add_cong(t, t2, t, t2);
    lemma_weno_s3_extra(a, a2, b, b2, c, c2);
    let r = q_add(q_sub(q_mul(q_int(3), a), q_mul(q_int(4), b)), c);
    let r2 = q_add(q_sub(q_mul(q_int(3), a2), q_mul(q_int(4), b2)), c2);
    lemma_add_cong(r, r2, r, r2);
    lemma_add_cong(q_frac(13, 12), q_frac(13, 12), q_mul(t, t), q_mul(t2, t2));
    lemma_add_cong(q_frac(1, 4), q_frac(1, 4), q_mul(r, r), q_mul(r2, r2));
    lemma_add_cong(
        q_mul(q_frac(13, 12), q_mul(t, t)),
        q_mul(q_frac(13, 12), q_mul(t2, t2)),
        q_mul(q_frac(1, 4), q_mul(r, r)),
        q_mul(q_frac(1, 4), q_mul(r2, r2)),
    );
}

} // verus!
