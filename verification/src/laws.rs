//! Global properties of the engine, stated and proved over the
//! specification formulas that the executable functions are verified
//! against.

use vstd::prelude::*;

use crate::exact::{add_t, Real};
use crate::grid::{lemma_vals_open, sadd, vals};
use crate::integrators::sp_advance;
use crate::rat::{
    lemma_add_cong, lemma_add_zero, lemma_div_add, lemma_div_self, lemma_eq_trans, lemma_mul_zero,
    lemma_mul_distrib, lemma_qs_trans, lemma_telescope, q_add, q_div, q_eq, q_int, q_le, q_mul,
    q_sub, qs_eq, qs_wf, Q,
};
use crate::schemes::{
    lemma_weno_pos, sp_backward, sp_central, sp_cip_gnew, sp_cip_unew, sp_diff, sp_dl, sp_eps,
    sp_w_a1, sp_w_a2, sp_w_a3, sp_w_asum, sp_w_s1, sp_w_s2, sp_w_s3, sp_w_w1, sp_w_w2, sp_w_w3,
};
use crate::simulation::{desc_wf, p_of, DescV};
use crate::{SpatialScheme, TemporalScheme};

verus! {

broadcast use crate::rat::qwf;

/// The index range on which the scheme's stencil is complete; outside it
/// the scheme leaves the node untouched.
pub open spec fn sp_stencil_range(s: SpatialScheme, d: DescV, n: int, i: int) -> bool {
    match s {
        SpatialScheme::Central => 1 <= i < n - 1,
        SpatialScheme::Upwind => if q_le(q_int(0), d.vel) {
            1 <= i < n
        } else {
            0 <= i < n - 1
        },
        SpatialScheme::LaxWendroff => 1 <= i < n - 1,
        SpatialScheme::ENO => 3 <= i < n - 3,
        SpatialScheme::WENO => 3 <= i < n - 3,
        SpatialScheme::CIP => false,
    }
}

/// Boundary nodes: every node outside the stencil's valid range gets an
/// increment of exactly zero, whatever the field holds.
pub proof fn lemma_boundary_zero(s: SpatialScheme, u: Seq<Q>, d: DescV)
    ensures
        forall|i: int|
            0 <= i < u.len() && !sp_stencil_range(s, d, u.len() as int, i) ==> sp_diff(s, u, d)[i]
                == q_int(0),
{
    assert forall|i: int|
        0 <= i < u.len() && !sp_stencil_range(s, d, u.len() as int, i) implies sp_diff(s, u, d)[i]
        == q_int(0) by {
        match s {
            SpatialScheme::Central => {},
            SpatialScheme::Upwind => {},
            SpatialScheme::LaxWendroff => {},
            SpatialScheme::ENO => {},
            SpatialScheme::WENO => {},
            SpatialScheme::CIP => {},
        }
    }
}

/// Zero velocity: forward Euler over the central scheme returns a field
/// equal, value by value, to its input.
pub proof fn lemma_central_euler_zero_velocity(u: Seq<Q>, d: DescV)
    requires
        desc_wf(d),
        qs_wf(u),
        q_eq(d.vel, q_int(0)),
    ensures
        qs_eq(sp_advance(TemporalScheme::ForwardEuler, SpatialScheme::Central, u, d), u),
{
    let n = u.len() as int;
    let du = sp_central(u, d);
    assert(q_eq(crate::rat::q_neg(d.vel), q_int(0)));
    lemma_mul_zero(crate::rat::q_neg(d.vel), d.delta_t);
    assert(q_eq(p_of(d), q_int(0)));
    assert forall|i: int| 0 <= i < n implies q_eq(#[trigger] sadd(u, du)[i], u[i]) by {
        if 1 <= i < n - 1 {
            lemma_mul_zero(p_of(d), crate::schemes::sp_grad1(u, i, d.delta_x));
            lemma_add_zero(u[i], du[i]);
        } else {
            lemma_add_zero(u[i], du[i]);
        }
    }
}

/// The three normalized WENO weights sum to one at every interior index.
pub proof fn lemma_weno_weights_sum(u: Seq<Q>, i: int, dx: Q)
    requires
        qs_wf(u),
        dx.d > 0,
        dx.n > 0,
        3 <= i < u.len() - 3,
    ensures
        q_eq(q_add(q_add(sp_w_w1(u, i, dx), sp_w_w2(u, i, dx)), sp_w_w3(u, i, dx)), q_int(1)),
{
    lemma_weno_pos(u, i, dx);
    let a1 = sp_w_a1(u, i, dx);
    let a2 = sp_w_a2(u, i, dx);
    let a3 = sp_w_a3(u, i, dx);
    let s = sp_w_asum(u, i, dx);
    let w12 = q_add(sp_w_w1(u, i, dx), sp_w_w2(u, i, dx));
    let a12 = q_add(a1, a2);
    lemma_div_add(a1, a2, s);
    lemma_add_cong(w12, q_div(a12, s), sp_w_w3(u, i, dx), sp_w_w3(u, i, dx));
    lemma_div_add(a12, a3, s);
    lemma_div_self(s);
    lemma_eq_trans(
        q_add(w12, sp_w_w3(u, i, dx)),
        q_add(q_div(a12, s), sp_w_w3(u, i, dx)),
        q_div(s, s),
    );
    lemma_eq_trans(q_add(w12, sp_w_w3(u, i, dx)), q_div(s, s), q_int(1));
}

/// A zero time step makes CIP the identity: the value and slope fields
/// come back equal, value by value, to their inputs.
pub proof fn lemma_cip_zero_step(u: Seq<Q>, g: Seq<Q>, d: DescV)
    requires
        desc_wf(d),
        qs_wf(u),
        qs_wf(g),
        u.len() == g.len(),
        q_eq(d.delta_t, q_int(0)),
    ensures
        qs_eq(sp_cip_unew(u, g, d), u),
        qs_eq(sp_cip_gnew(u, g, d), g),
{
    let n = u.len() as int;
    assert forall|i: int| 0 <= i < n implies q_eq(#[trigger] sp_cip_unew(u, g, d)[i], u[i]) by {
        lemma_cip_zero_node(u, g, d, i);
    }
    assert forall|i: int| 0 <= i < n implies q_eq(#[trigger] sp_cip_gnew(u, g, d)[i], g[i]) by {
        lemma_cip_zero_node(u, g, d, i);
    }
}

/// One node of the zero-step CIP identity.
proof fn lemma_cip_zero_node(u: Seq<Q>, g: Seq<Q>, d: DescV, i: int)
    requires
        desc_wf(d),
        qs_wf(u),
        qs_wf(g),
        u.len() == g.len(),
        q_eq(d.delta_t, q_int(0)),
        0 <= i < u.len(),
    ensures
        q_eq(sp_cip_unew(u, g, d)[i], u[i]),
        q_eq(sp_cip_gnew(u, g, d)[i], g[i]),
{
    let p = p_of(d);
    let dx = d.delta_x;
    assert(q_mul(dx, dx).n == dx.n * dx.n);
    assert(q_mul(q_mul(dx, dx), dx).n == (dx.n * dx.n) * dx.n);
    assert(dx.n * dx.n > 0 && (dx.n * dx.n) * dx.n > 0) by (nonlinear_arith)
        requires
            dx.n > 0,
    ;
    lemma_mul_zero(d.delta_t, crate::rat::q_neg(d.vel));
    assert(q_eq(p, q_int(0)));
    let p2 = q_mul(p, p);
    let p3 = q_mul(p2, p);
    lemma_mul_zero(p, p);
    lemma_mul_zero(p2, p);
    if i >= 1 {
            let a = crate::schemes::sp_cip_a(u, g, i, d.delta_x);
            let b = crate::schemes::sp_cip_b(u, g, i, d.delta_x);
            // every term that carries a power of p is equal to zero
            lemma_mul_zero(p3, a);
            lemma_mul_zero(p2, b);
            lemma_mul_zero(p, g[i]);
            let t1 = q_mul(a, p3);
            let t2 = q_mul(b, p2);
            let t3 = q_mul(g[i], p);
            lemma_add_zero(t1, t2);
            lemma_eq_trans(q_add(t1, t2), t1, q_int(0));
            lemma_add_zero(q_add(t1, t2), t3);
            lemma_eq_trans(q_add(q_add(t1, t2), t3), q_add(t1, t2), q_int(0));
            lemma_add_zero(u[i], q_add(q_add(t1, t2), t3));
            // the slope: 3 a p^2 + 2 b p + c ~ c
            let s1 = q_mul(q_mul(q_int(3), a), p2);
            let s2 = q_mul(q_mul(q_int(2), b), p);
            lemma_mul_zero(p2, q_mul(q_int(3), a));
            lemma_mul_zero(p, q_mul(q_int(2), b));
            lemma_add_zero(s1, s2);
            lemma_eq_trans(q_add(s1, s2), s1, q_int(0));
            lemma_add_zero(g[i], q_add(s1, s2));
    }
}

// ---------------------------------------------------------------------------
// Mass balance of the backward (upwind, v >= 0) scheme.
// ---------------------------------------------------------------------------

/// The sum of a sequence of rationals.
pub open spec fn q_sum(s: Seq<Q>) -> Q
    decreases s.len(),
{
    if s.len() == 0 {
        q_int(0)
    } else {
        q_add(q_sum(s.drop_last()), s.last())
    }
}

pub proof fn lemma_q_sum_wf(s: Seq<Q>)
    requires
        qs_wf(s),
    ensures
        q_sum(s).d > 0,
    decreases s.len(),
{
    if s.len() > 0 {
        assert(qs_wf(s.drop_last()));
        lemma_q_sum_wf(s.drop_last());
    }
}

/// Sums respect pointwise value equality.
pub proof fn lemma_q_sum_cong(a: Seq<Q>, b: Seq<Q>)
    requires
        qs_eq(a, b),
    ensures
        q_eq(q_sum(a), q_sum(b)),
    decreases a.len(),
{
    if a.len() == 0 {
    } else {
        assert(qs_eq(a.drop_last(), b.drop_last()));
        lemma_q_sum_cong(a.drop_last(), b.drop_last());
        lemma_add_cong(q_sum(a.drop_last()), q_sum(b.drop_last()), a.last(), b.last());
    }
}

/// The sum of the backward-difference increments over the first `m` nodes
/// telescopes to `(u[m-1] - u[0]) / dx * p`.
proof fn lemma_backward_prefix(u: Seq<Q>, d: DescV, m: int)
    requires
        desc_wf(d),
        qs_wf(u),
        1 <= m <= u.len(),
    ensures
        q_eq(
            q_sum(sp_backward(u, d).take(m)),
            q_mul(q_div(q_sub(u[m - 1], u[0]), d.delta_x), p_of(d)),
        ),
    decreases m,
{
    let dx = d.delta_x;
    let p = p_of(d);
    let inc = sp_backward(u, d);
    if m == 1 {
        assert(inc.take(1).last() == inc[0]);
        assert(inc.take(1).drop_last() =~= inc.take(0));
        assert(inc.take(0).len() == 0);
        assert(inc[0] == q_int(0));
        assert(q_sum(inc.take(0)) == q_int(0));
        assert(q_sum(inc.take(1)) == q_add(q_sum(inc.take(1).drop_last()), inc.take(1).last()));
        assert(q_sum(inc.take(1)) == q_add(q_int(0), q_int(0)));
        lemma_add_zero(q_int(0), q_int(0));
        // target: ((u[0] - u[0]) / dx) * p has a zero numerator
        assert(q_sub(u[0], u[0]).n == 0);
        assert(q_div(q_sub(u[0], u[0]), dx).n == q_sub(u[0], u[0]).n * dx.d);
        assert(q_sub(u[0], u[0]).n * dx.d == 0) by (nonlinear_arith)
            requires
                q_sub(u[0], u[0]).n == 0,
        ;
        assert(q_mul(q_div(q_sub(u[0], u[0]), dx), p).n == 0 * p.n);
        lemma_eq_trans(
            q_sum(inc.take(1)),
            q_int(0),
            q_mul(q_div(q_sub(u[0], u[0]), dx), p),
        );
    } else {
        lemma_backward_prefix(u, d, m - 1);
        assert(inc.take(m).drop_last() =~= inc.take(m - 1));
        assert(inc.take(m).last() == inc[m - 1]);
        assert(inc[m - 1] == q_mul(sp_dl(u, m - 1, dx), p));
        let prev = q_mul(q_div(q_sub(u[m - 2], u[0]), dx), p);
        let last = q_mul(q_div(q_sub(u[m - 1], u[m - 2]), dx), p);
        let goal = q_mul(q_div(q_sub(u[m - 1], u[0]), dx), p);
        lemma_add_cong(q_sum(inc.take(m - 1)), prev, inc[m - 1], last);
        // prev + last ~ goal: telescope under the common factors
        let d1 = q_div(q_sub(u[m - 2], u[0]), dx);
        let d2 = q_div(q_sub(u[m - 1], u[m - 2]), dx);
        let dsum = q_div(q_add(q_sub(u[m - 2], u[0]), q_sub(u[m - 1], u[m - 2])), dx);
        lemma_mul_distrib(d1, d2, p);
        lemma_div_add(q_sub(u[m - 2], u[0]), q_sub(u[m - 1], u[m - 2]), dx);
        lemma_add_cong(q_add(d1, d2), dsum, p, p);
        lemma_eq_trans(q_add(prev, last), q_mul(q_add(d1, d2), p), q_mul(dsum, p));
        lemma_telescope(u[m - 2], u[m - 1], u[0]);
        lemma_div_cong_local(
            q_add(q_sub(u[m - 2], u[0]), q_sub(u[m - 1], u[m - 2])),
            q_sub(u[m - 1], u[0]),
            dx,
        );
        lemma_add_cong(dsum, q_div(q_sub(u[m - 1], u[0]), dx), p, p);
        lemma_eq_trans(q_add(prev, last), q_mul(dsum, p), goal);
        lemma_eq_trans(q_sum(inc.take(m)), q_add(prev, last), goal);
    }
}

/// Division congruence in the numerator only, with a fixed positive divisor.
proof fn lemma_div_cong_local(a: Q, b: Q, dx: Q)
    requires
        q_eq(a, b),
        a.d > 0,
        b.d > 0,
        dx.d > 0,
        dx.n > 0,
    ensures
        q_eq(q_div(a, dx), q_div(b, dx)),
{
    crate::rat::lemma_div_cong(a, b, dx, dx);
}

/// Sums split over pointwise sums of equally long sequences.
pub proof fn lemma_q_sum_add(a: Seq<Q>, b: Seq<Q>)
    requires
        qs_wf(a),
        qs_wf(b),
        a.len() == b.len(),
    ensures
        q_eq(q_sum(sadd(a, b)), q_add(q_sum(a), q_sum(b))),
    decreases a.len(),
{
    if a.len() == 0 {
        assert(sadd(a, b).len() == 0);
        lemma_add_zero(q_int(0), q_int(0));
    } else {
        let ad = a.drop_last();
        let bd = b.drop_last();
        assert(qs_wf(ad));
        assert(qs_wf(bd));
        assert(sadd(a, b).drop_last() =~= sadd(ad, bd));
        assert(sadd(a, b).last() == q_add(a.last(), b.last()));
        lemma_q_sum_add(ad, bd);
        lemma_q_sum_wf(ad);
        lemma_q_sum_wf(bd);
        lemma_add_cong(
            q_sum(sadd(ad, bd)),
            q_add(q_sum(ad), q_sum(bd)),
            q_add(a.last(), b.last()),
            q_add(a.last(), b.last()),
        );
        crate::rat::lemma_add_rearrange(q_sum(ad), q_sum(bd), a.last(), b.last());
        lemma_eq_trans(
            q_sum(sadd(a, b)),
            q_add(q_add(q_sum(ad), q_sum(bd)), q_add(a.last(), b.last())),
            q_add(q_add(q_sum(ad), a.last()), q_add(q_sum(bd), b.last())),
        );
    }
}

/// Mass balance of one whole step: forward Euler over upwind at `v >= 0`
/// changes the total field sum by exactly the boundary flux
/// `(u[n-1] - u[0]) / dx * p`. With the pulse away from both ends the sum
/// is conserved exactly.
pub proof fn lemma_upwind_mass_step(u: Seq<Q>, d: DescV)
    requires
        desc_wf(d),
        qs_wf(u),
        u.len() >= 1,
        q_le(q_int(0), d.vel),
    ensures
        q_eq(
            q_sum(sp_advance(TemporalScheme::ForwardEuler, SpatialScheme::Upwind, u, d)),
            q_add(
                q_sum(u),
                q_mul(q_div(q_sub(u[u.len() - 1], u[0]), d.delta_x), p_of(d)),
            ),
        ),
{
    let inc = sp_backward(u, d);
    let flux = q_mul(q_div(q_sub(u[u.len() - 1], u[0]), d.delta_x), p_of(d));
    assert(sp_diff(SpatialScheme::Upwind, u, d) == inc);
    crate::schemes::lemma_sp_diff_wf(SpatialScheme::Upwind, u, d);
    lemma_q_sum_add(u, inc);
    lemma_upwind_mass(u, d);
    lemma_q_sum_wf(u);
    lemma_q_sum_wf(inc);
    lemma_add_cong(q_sum(u), q_sum(u), q_sum(inc), flux);
    lemma_eq_trans(
        q_sum(sadd(u, inc)),
        q_add(q_sum(u), q_sum(inc)),
        q_add(q_sum(u), flux),
    );
}

/// Mass balance for the upwind scheme at `v >= 0`: one backward-difference
/// increment field changes the total field sum by exactly
/// `(u[n-1] - u[0]) / dx * p`. With a pulse away from the boundary
/// (`u[0] = u[n-1] = 0`) the sum is conserved exactly.
pub proof fn lemma_upwind_mass(u: Seq<Q>, d: DescV)
    requires
        desc_wf(d),
        qs_wf(u),
        u.len() >= 1,
    ensures
        q_eq(
            q_sum(sp_backward(u, d)),
            q_mul(q_div(q_sub(u[u.len() - 1], u[0]), d.delta_x), p_of(d)),
        ),
{
    let n = u.len() as int;
    lemma_backward_prefix(u, d, n);
    assert(sp_backward(u, d).take(n) =~= sp_backward(u, d));
}

} // verus!
