//! Temporal integrators.
//!
//! Each integrator advances the field one step of size `delta_t` by
//! evaluating the selected spatial scheme at one or more intermediate
//! states and combining the results by a fixed multi-stage formula. The
//! formulas below are stated exactly, over the rational values.

use vstd::prelude::*;

use crate::exact::Real;
use crate::grid::{
    lemma_sadd_wf, lemma_sdivk_wf, lemma_sscale_wf, lemma_vals_fold, lemma_vals_open, sadd, sdivk,
    sscale, ssub, vadd_t, vdivk_t, vals, vscale_t, vsub_t, zeros,
};
use crate::rat::{lemma_qs_trans, q_eq, q_int, qs_eq, qs_wf, Q};
use crate::schemes::{
    central_diff, eno_diff, lax_wendroff_diff, sp_diff, upwind_diff, weno_diff,
    lemma_sp_diff_cong, lemma_sp_diff_wf,
};
use crate::simulation::{desc_wf, DescV, Descriptor};
use crate::{SpatialScheme, TemporalScheme};

verus! {

/// The advanced field, by temporal scheme. `diff` below abbreviates the
/// increment field of the selected spatial scheme.
pub open spec fn sp_advance(t: TemporalScheme, s: SpatialScheme, u: Seq<Q>, d: DescV) -> Seq<Q> {
    let du = sp_diff(s, u, d);
    match t {
        TemporalScheme::ForwardEuler => sadd(u, du),
        TemporalScheme::Rk2 => {
            let u1 = sadd(u, du);
            sdivk(sadd(sadd(sscale(2, u), du), sp_diff(s, u1, d)), 2)
        },
        TemporalScheme::Rk3 => {
            let u1 = sadd(u, du);
            let d1 = sp_diff(s, u1, d);
            let u2 = sdivk(sadd(sadd(sscale(4, u), du), d1), 4);
            let d2 = sp_diff(s, u2, d);
            sdivk(sadd(sadd(sadd(sscale(6, u), du), d1), sscale(4, d2)), 6)
        },
        TemporalScheme::Rk4 => {
            let u1 = sadd(u, du);
            let u01 = sdivk(sadd(u, u1), 2);
            let u2 = sadd(u, sp_diff(s, u01, d));
            let u02 = sdivk(sadd(u, u2), 2);
            let u3 = sadd(u, sp_diff(s, u02, d));
            let u4 = sadd(u, sp_diff(s, u3, d));
            sdivk(sadd(sadd(sadd(u1, sscale(2, u2)), sscale(2, u3)), u4), 6)
        },
        TemporalScheme::TvdRk2 => {
            let u1 = sadd(u, du);
            sdivk(sadd(sadd(u, u1), sp_diff(s, u1, d)), 2)
        },
        TemporalScheme::TvdRk3 => {
            let u1 = sadd(u, du);
            let u2 = sdivk(sadd(sadd(sscale(3, u), u1), sp_diff(s, u1, d)), 4);
            sdivk(sadd(sadd(u, sscale(2, u2)), sscale(2, sp_diff(s, u2, d))), 3)
        },
        TemporalScheme::TvdRk4 => {
            let u1 = sdivk(sadd(sscale(2, u), du), 2);
            let d1 = sp_diff(s, u1, d);
            let u2 = sdivk(sadd(sadd(ssub(sscale(2, u), du), sscale(2, u1)), sscale(2, d1)), 4);
            let d2 = sp_diff(s, u2, d);
            let u3 = sdivk(
                sadd(
                    sadd(sadd(ssub(ssub(u, du), sscale(3, d1)), sscale(2, u1)), sscale(6, u2)),
                    sscale(9, d2),
                ),
                9,
            );
            let d3 = sp_diff(s, u3, d);
            sdivk(sadd(sadd(sadd(sadd(sscale(2, u1), d1), sscale(2, u2)), sscale(2, u3)), d3), 6)
        },
    }
}

/// The increment field of the selected spatial scheme, executably.
pub fn diff(s: SpatialScheme, u: &Vec<Real>, desc: &Descriptor) -> (r: Vec<Real>)
    requires
        desc_wf(desc@),
        qs_wf(vals(u@)),
    ensures
        r@.len() == u@.len(),
        qs_eq(vals(r@), sp_diff(s, vals(u@), desc@)),
        qs_wf(vals(r@)),
{
    match s {
        SpatialScheme::Central => central_diff(u, desc),
        SpatialScheme::Upwind => upwind_diff(u, desc),
        SpatialScheme::LaxWendroff => lax_wendroff_diff(u, desc),
        SpatialScheme::ENO => eno_diff(u, desc),
        SpatialScheme::WENO => weno_diff(u, desc),
        SpatialScheme::CIP => {
            let r = zeros(u.len());
            proof {
                assert forall|i: int| 0 <= i < r@.len() implies q_eq(
                    #[trigger] vals(r@)[i],
                    sp_diff(s, vals(u@), desc@)[i],
                ) by {}
            }
            r
        },
    }
}

/// The increment at a state known (by value) to equal the ghost target.
fn diff_at(s: SpatialScheme, v: &Vec<Real>, desc: &Descriptor, gt: Ghost<Seq<Q>>) -> (r: Vec<Real>)
    requires
        desc_wf(desc@),
        qs_wf(vals(v@)),
        qs_eq(vals(v@), gt@),
        qs_wf(gt@),
    ensures
        r@.len() == v@.len(),
        qs_eq(vals(r@), sp_diff(s, gt@, desc@)),
        qs_wf(vals(r@)),
{
    let r = diff(s, v, desc);
    proof {
        lemma_sp_diff_wf(s, vals(v@), desc@);
        lemma_sp_diff_cong(s, vals(v@), gt@, desc@);
        lemma_qs_trans(vals(r@), sp_diff(s, vals(v@), desc@), sp_diff(s, gt@, desc@));
    }
    r
}

/// Forward Euler: `u + diff(u)`.
pub fn forward_euler(u: &Vec<Real>, s: SpatialScheme, desc: &Descriptor) -> (r: Vec<Real>)
    requires
        desc_wf(desc@),
        qs_wf(vals(u@)),
    ensures
        r@.len() == u@.len(),
        qs_eq(vals(r@), sp_advance(TemporalScheme::ForwardEuler, s, vals(u@), desc@)),
        qs_wf(vals(r@)),
{
    let ghost gu = vals(u@);
    let ghost gd = desc@;
    let ghost d0s = sp_diff(s, gu, gd);
    proof {
        lemma_sp_diff_wf(s, gu, gd);
        lemma_sadd_wf(gu, d0s);
    }
    let d0 = diff(s, u, desc);
    vadd_t(u, &d0, Ghost(gu), Ghost(d0s))
}

/// Second-order Runge-Kutta: `(2u + diff(u) + diff(u1)) / 2`.
pub fn rk2(u: &Vec<Real>, s: SpatialScheme, desc: &Descriptor) -> (r: Vec<Real>)
    requires
        desc_wf(desc@),
        qs_wf(vals(u@)),
    ensures
        r@.len() == u@.len(),
        qs_eq(vals(r@), sp_advance(TemporalScheme::Rk2, s, vals(u@), desc@)),
        qs_wf(vals(r@)),
{
    let ghost gu = vals(u@);
    let ghost gd = desc@;
    let ghost d0s = sp_diff(s, gu, gd);
    let ghost u1s = sadd(gu, d0s);
    proof {
        lemma_sp_diff_wf(s, gu, gd);
        lemma_sadd_wf(gu, d0s);
    }
    let d0 = diff(s, u, desc);
    let u1 = vadd_t(u, &d0, Ghost(gu), Ghost(d0s));
    let d1 = diff_at(s, &u1, desc, Ghost(u1s));
    let ghost d1s = sp_diff(s, u1s, gd);
    proof {
        lemma_sp_diff_wf(s, u1s, gd);
        lemma_sscale_wf(2, gu);
        lemma_sadd_wf(sscale(2, gu), d0s);
        lemma_sadd_wf(sadd(sscale(2, gu), d0s), d1s);
    }
    let su = vscale_t(2, u, Ghost(gu));
    let t1 = vadd_t(&su, &d0, Ghost(sscale(2, gu)), Ghost(d0s));
    let t2 = vadd_t(&t1, &d1, Ghost(sadd(sscale(2, gu), d0s)), Ghost(d1s));
    vdivk_t(&t2, 2, Ghost(sadd(sadd(sscale(2, gu), d0s), d1s)))
}

/// Third-order Runge-Kutta:
/// `(6u + diff(u) + diff(u1) + 4 diff(u2)) / 6`.
pub fn rk3(u: &Vec<Real>, s: SpatialScheme, desc: &Descriptor) -> (r: Vec<Real>)
    requires
        desc_wf(desc@),
        qs_wf(vals(u@)),
    ensures
        r@.len() == u@.len(),
        qs_eq(vals(r@), sp_advance(TemporalScheme::Rk3, s, vals(u@), desc@)),
        qs_wf(vals(r@)),
{
    let ghost gu = vals(u@);
    let ghost gd = desc@;
    let ghost d0s = sp_diff(s, gu, gd);
    let ghost u1s = sadd(gu, d0s);
    proof {
        lemma_sp_diff_wf(s, gu, gd);
        lemma_sadd_wf(gu, d0s);
    }
    let d0 = diff(s, u, desc);
    let u1 = vadd_t(u, &d0, Ghost(gu), Ghost(d0s));
    let d1 = diff_at(s, &u1, desc, Ghost(u1s));
    let ghost d1s = sp_diff(s, u1s, gd);
    let ghost u2s = sdivk(sadd(sadd(sscale(4, gu), d0s), d1s), 4);
    proof {
        lemma_sp_diff_wf(s, u1s, gd);
        lemma_sscale_wf(4, gu);
        lemma_sadd_wf(sscale(4, gu), d0s);
        lemma_sadd_wf(sadd(sscale(4, gu), d0s), d1s);
        lemma_sdivk_wf(sadd(sadd(sscale(4, gu), d0s), d1s), 4);
    }
    let s4 = vscale_t(4, u, Ghost(gu));
    let t1 = vadd_t(&s4, &d0, Ghost(sscale(4, gu)), Ghost(d0s));
    let t2 = vadd_t(&t1, &d1, Ghost(sadd(sscale(4, gu), d0s)), Ghost(d1s));
    let u2 = vdivk_t(&t2, 4, Ghost(sadd(sadd(sscale(4, gu), d0s), d1s)));
    let d2 = diff_at(s, &u2, desc, Ghost(u2s));
    let ghost d2s = sp_diff(s, u2s, gd);
    proof {
        lemma_sp_diff_wf(s, u2s, gd);
        lemma_sscale_wf(6, gu);
        lemma_sscale_wf(4, d2s);
        lemma_sadd_wf(sscale(6, gu), d0s);
        lemma_sadd_wf(sadd(sscale(6, gu), d0s), d1s);
        lemma_sadd_wf(sadd(sadd(sscale(6, gu), d0s), d1s), sscale(4, d2s));
    }
    let s6 = vscale_t(6, u, Ghost(gu));
    let t3 = vadd_t(&s6, &d0, Ghost(sscale(6, gu)), Ghost(d0s));
    let t4 = vadd_t(&t3, &d1, Ghost(sadd(sscale(6, gu), d0s)), Ghost(d1s));
    let s4d2 = vscale_t(4, &d2, Ghost(d2s));
    let t5 = vadd_t(&t4, &s4d2, Ghost(sadd(sadd(sscale(6, gu), d0s), d1s)), Ghost(sscale(4, d2s)));
    vdivk_t(&t5, 6, Ghost(sadd(sadd(sadd(sscale(6, gu), d0s), d1s), sscale(4, d2s))))
}

/// Classical fourth-order Runge-Kutta with midpoint states.
pub fn rk4(u: &Vec<Real>, s: SpatialScheme, desc: &Descriptor) -> (r: Vec<Real>)
    requires
        desc_wf(desc@),
        qs_wf(vals(u@)),
    ensures
        r@.len() == u@.len(),
        qs_eq(vals(r@), sp_advance(TemporalScheme::Rk4, s, vals(u@), desc@)),
        qs_wf(vals(r@)),
{
    let ghost gu = vals(u@);
    let ghost gd = desc@;
    let ghost d0s = sp_diff(s, gu, gd);
    let ghost u1s = sadd(gu, d0s);
    let ghost u01s = sdivk(sadd(gu, u1s), 2);
    proof {
        lemma_sp_diff_wf(s, gu, gd);
        lemma_sadd_wf(gu, d0s);
        lemma_sadd_wf(gu, u1s);
        lemma_sdivk_wf(sadd(gu, u1s), 2);
    }
    let d0 = diff(s, u, desc);
    let u1 = vadd_t(u, &d0, Ghost(gu), Ghost(d0s));
    let m1 = vadd_t(u, &u1, Ghost(gu), Ghost(u1s));
    let u01 = vdivk_t(&m1, 2, Ghost(sadd(gu, u1s)));
    let d01 = diff_at(s, &u01, desc, Ghost(u01s));
    let ghost d01s = sp_diff(s, u01s, gd);
    let ghost u2s = sadd(gu, d01s);
    proof {
        lemma_sp_diff_wf(s, u01s, gd);
        lemma_sadd_wf(gu, d01s);
        lemma_sadd_wf(gu, u2s);
        lemma_sdivk_wf(sadd(gu, u2s), 2);
    }
    let u2 = vadd_t(u, &d01, Ghost(gu), Ghost(d01s));
    let m2 = vadd_t(u, &u2, Ghost(gu), Ghost(u2s));
    let u02 = vdivk_t(&m2, 2, Ghost(sadd(gu, u2s)));
    let ghost u02s = sdivk(sadd(gu, u2s), 2);
    let d02 = diff_at(s, &u02, desc, Ghost(u02s));
    let ghost d02s = sp_diff(s, u02s, gd);
    let ghost u3s = sadd(gu, d02s);
    proof {
        lemma_sp_diff_wf(s, u02s, gd);
        lemma_sadd_wf(gu, d02s);
    }
    let u3 = vadd_t(u, &d02, Ghost(gu), Ghost(d02s));
    let d3 = diff_at(s, &u3, desc, Ghost(u3s));
    let ghost d3s = sp_diff(s, u3s, gd);
    let ghost u4s = sadd(gu, d3s);
    proof {
        lemma_sp_diff_wf(s, u3s, gd);
        lemma_sadd_wf(gu, d3s);
        lemma_sscale_wf(2, u2s);
        lemma_sscale_wf(2, u3s);
        lemma_sadd_wf(u1s, sscale(2, u2s));
        lemma_sadd_wf(sadd(u1s, sscale(2, u2s)), sscale(2, u3s));
        lemma_sadd_wf(sadd(sadd(u1s, sscale(2, u2s)), sscale(2, u3s)), u4s);
    }
    let u4 = vadd_t(u, &d3, Ghost(gu), Ghost(d3s));
    let s2u2 = vscale_t(2, &u2, Ghost(u2s));
    let s2u3 = vscale_t(2, &u3, Ghost(u3s));
    let t1 = vadd_t(&u1, &s2u2, Ghost(u1s), Ghost(sscale(2, u2s)));
    let t2 = vadd_t(&t1, &s2u3, Ghost(sadd(u1s, sscale(2, u2s))), Ghost(sscale(2, u3s)));
    let t3 = vadd_t(&t2, &u4, Ghost(sadd(sadd(u1s, sscale(2, u2s)), sscale(2, u3s))), Ghost(u4s));
    vdivk_t(&t3, 6, Ghost(sadd(sadd(sadd(u1s, sscale(2, u2s)), sscale(2, u3s)), u4s)))
}

/// TVD second-order Runge-Kutta: `(u + u1 + diff(u1)) / 2`.
pub fn tvd_rk2(u: &Vec<Real>, s: SpatialScheme, desc: &Descriptor) -> (r: Vec<Real>)
    requires
        desc_wf(desc@),
        qs_wf(vals(u@)),
    ensures
        r@.len() == u@.len(),
        qs_eq(vals(r@), sp_advance(TemporalScheme::TvdRk2, s, vals(u@), desc@)),
        qs_wf(vals(r@)),
{
    let ghost gu = vals(u@);
    let ghost gd = desc@;
    let ghost d0s = sp_diff(s, gu, gd);
    let ghost u1s = sadd(gu, d0s);
    proof {
        lemma_sp_diff_wf(s, gu, gd);
        lemma_sadd_wf(gu, d0s);
    }
    let d0 = diff(s, u, desc);
    let u1 = vadd_t(u, &d0, Ghost(gu), Ghost(d0s));
    let d1 = diff_at(s, &u1, desc, Ghost(u1s));
    let ghost d1s = sp_diff(s, u1s, gd);
    proof {
        lemma_sp_diff_wf(s, u1s, gd);
        lemma_sadd_wf(gu, u1s);
        lemma_sadd_wf(sadd(gu, u1s), d1s);
    }
    let t1 = vadd_t(u, &u1, Ghost(gu), Ghost(u1s));
    let t2 = vadd_t(&t1, &d1, Ghost(sadd(gu, u1s)), Ghost(d1s));
    vdivk_t(&t2, 2, Ghost(sadd(sadd(gu, u1s), d1s)))
}

/// TVD third-order Runge-Kutta.
pub fn tvd_rk3(u: &Vec<Real>, s: SpatialScheme, desc: &Descriptor) -> (r: Vec<Real>)
    requires
        desc_wf(desc@),
        qs_wf(vals(u@)),
    ensures
        r@.len() == u@.len(),
        qs_eq(vals(r@), sp_advance(TemporalScheme::TvdRk3, s, vals(u@), desc@)),
        qs_wf(vals(r@)),
{
    let ghost gu = vals(u@);
    let ghost gd = desc@;
    let ghost d0s = sp_diff(s, gu, gd);
    let ghost u1s = sadd(gu, d0s);
    proof {
        lemma_sp_diff_wf(s, gu, gd);
        lemma_sadd_wf(gu, d0s);
    }
    let d0 = diff(s, u, desc);
    let u1 = vadd_t(u, &d0, Ghost(gu), Ghost(d0s));
    let d1 = diff_at(s, &u1, desc, Ghost(u1s));
    let ghost d1s = sp_diff(s, u1s, gd);
    let ghost u2s = sdivk(sadd(sadd(sscale(3, gu), u1s), d1s), 4);
    proof {
        lemma_sp_diff_wf(s, u1s, gd);
        lemma_sscale_wf(3, gu);
        lemma_sadd_wf(sscale(3, gu), u1s);
        lemma_sadd_wf(sadd(sscale(3, gu), u1s), d1s);
        lemma_sdivk_wf(sadd(sadd(sscale(3, gu), u1s), d1s), 4);
    }
    let s3 = vscale_t(3, u, Ghost(gu));
    let t1 = vadd_t(&s3, &u1, Ghost(sscale(3, gu)), Ghost(u1s));
    let t2 = vadd_t(&t1, &d1, Ghost(sadd(sscale(3, gu), u1s)), Ghost(d1s));
    let u2 = vdivk_t(&t2, 4, Ghost(sadd(sadd(sscale(3, gu), u1s), d1s)));
    let d2 = diff_at(s, &u2, desc, Ghost(u2s));
    let ghost d2s = sp_diff(s, u2s, gd);
    proof {
        lemma_sp_diff_wf(s, u2s, gd);
        lemma_sscale_wf(2, u2s);
        lemma_sscale_wf(2, d2s);
        lemma_sadd_wf(gu, sscale(2, u2s));
        lemma_sadd_wf(sadd(gu, sscale(2, u2s)), sscale(2, d2s));
    }
    let s2u2 = vscale_t(2, &u2, Ghost(u2s));
    let s2d2 = vscale_t(2, &d2, Ghost(d2s));
    let t3 = vadd_t(u, &s2u2, Ghost(gu), Ghost(sscale(2, u2s)));
    let t4 = vadd_t(&t3, &s2d2, Ghost(sadd(gu, sscale(2, u2s))), Ghost(sscale(2, d2s)));
    vdivk_t(&t4, 3, Ghost(sadd(sadd(gu, sscale(2, u2s)), sscale(2, d2s))))
}

/// TVD fourth-order Runge-Kutta.
pub fn tvd_rk4(u: &Vec<Real>, s: SpatialScheme, desc: &Descriptor) -> (r: Vec<Real>)
    requires
        desc_wf(desc@),
        qs_wf(vals(u@)),
    ensures
        r@.len() == u@.len(),
        qs_eq(vals(r@), sp_advance(TemporalScheme::TvdRk4, s, vals(u@), desc@)),
        qs_wf(vals(r@)),
{
    let ghost gu = vals(u@);
    let ghost gd = desc@;
    let ghost d0s = sp_diff(s, gu, gd);
    let ghost u1s = sdivk(sadd(sscale(2, gu), d0s), 2);
    proof {
        lemma_sp_diff_wf(s, gu, gd);
        lemma_sscale_wf(2, gu);
        lemma_sadd_wf(sscale(2, gu), d0s);
        lemma_sdivk_wf(sadd(sscale(2, gu), d0s), 2);
    }
    let d0 = diff(s, u, desc);
    let s2u = vscale_t(2, u, Ghost(gu));
    let m1 = vadd_t(&s2u, &d0, Ghost(sscale(2, gu)), Ghost(d0s));
    let u1 = vdivk_t(&m1, 2, Ghost(sadd(sscale(2, gu), d0s)));
    let d1 = diff_at(s, &u1, desc, Ghost(u1s));
    let ghost d1s = sp_diff(s, u1s, gd);
    let ghost u2s = sdivk(sadd(sadd(ssub(sscale(2, gu), d0s), sscale(2, u1s)), sscale(2, d1s)), 4);
    proof {
        lemma_sp_diff_wf(s, u1s, gd);
        lemma_sadd_wf(sscale(2, gu), d0s);
        lemma_sscale_wf(2, u1s);
        lemma_sscale_wf(2, d1s);
        lemma_sadd_wf(ssub(sscale(2, gu), d0s), sscale(2, u1s));
        lemma_sadd_wf(sadd(ssub(sscale(2, gu), d0s), sscale(2, u1s)), sscale(2, d1s));
        lemma_sdivk_wf(
            sadd(sadd(ssub(sscale(2, gu), d0s), sscale(2, u1s)), sscale(2, d1s)),
            4,
        );
    }
    let m2a = vsub_t(&s2u, &d0, Ghost(sscale(2, gu)), Ghost(d0s));
    let s2u1 = vscale_t(2, &u1, Ghost(u1s));
    let s2d1 = vscale_t(2, &d1, Ghost(d1s));
    let m2b = vadd_t(&m2a, &s2u1, Ghost(ssub(sscale(2, gu), d0s)), Ghost(sscale(2, u1s)));
    let m2c = vadd_t(&m2b, &s2d1, Ghost(sadd(ssub(sscale(2, gu), d0s), sscale(2, u1s))), Ghost(
        sscale(2, d1s),
    ));
    let u2 = vdivk_t(&m2c, 4, Ghost(
        sadd(sadd(ssub(sscale(2, gu), d0s), sscale(2, u1s)), sscale(2, d1s)),
    ));
    let d2 = diff_at(s, &u2, desc, Ghost(u2s));
    let ghost d2s = sp_diff(s, u2s, gd);
    let ghost u3s = sdivk(
        sadd(
            sadd(sadd(ssub(ssub(gu, d0s), sscale(3, d1s)), sscale(2, u1s)), sscale(6, u2s)),
            sscale(9, d2s),
        ),
        9,
    );
    proof {
        lemma_sp_diff_wf(s, u2s, gd);
        lemma_sadd_wf(gu, d0s);
        lemma_sscale_wf(3, d1s);
        lemma_sscale_wf(6, u2s);
        lemma_sscale_wf(9, d2s);
        lemma_sadd_wf(ssub(gu, d0s), sscale(3, d1s));
        lemma_sadd_wf(ssub(ssub(gu, d0s), sscale(3, d1s)), sscale(2, u1s));
        lemma_sadd_wf(
            sadd(ssub(ssub(gu, d0s), sscale(3, d1s)), sscale(2, u1s)),
            sscale(6, u2s),
        );
        lemma_sadd_wf(
            sadd(sadd(ssub(ssub(gu, d0s), sscale(3, d1s)), sscale(2, u1s)), sscale(6, u2s)),
            sscale(9, d2s),
        );
        lemma_sdivk_wf(
            sadd(
                sadd(sadd(ssub(ssub(gu, d0s), sscale(3, d1s)), sscale(2, u1s)), sscale(6, u2s)),
                sscale(9, d2s),
            ),
            9,
        );
    }
    let m3a = vsub_t(u, &d0, Ghost(gu), Ghost(d0s));
    let s3d1 = vscale_t(3, &d1, Ghost(d1s));
    let m3b = vsub_t(&m3a, &s3d1, Ghost(ssub(gu, d0s)), Ghost(sscale(3, d1s)));
    let m3c = vadd_t(&m3b, &s2u1, Ghost(ssub(ssub(gu, d0s), sscale(3, d1s))), Ghost(
        sscale(2, u1s),
    ));
    let s6u2 = vscale_t(6, &u2, Ghost(u2s));
    let m3d = vadd_t(&m3c, &s6u2, Ghost(
        sadd(ssub(ssub(gu, d0s), sscale(3, d1s)), sscale(2, u1s)),
    ), Ghost(sscale(6, u2s)));
    let s9d2 = vscale_t(9, &d2, Ghost(d2s));
    let m3e = vadd_t(&m3d, &s9d2, Ghost(
        sadd(sadd(ssub(ssub(gu, d0s), sscale(3, d1s)), sscale(2, u1s)), sscale(6, u2s)),
    ), Ghost(sscale(9, d2s)));
    let u3 = vdivk_t(&m3e, 9, Ghost(
        sadd(
            sadd(sadd(ssub(ssub(gu, d0s), sscale(3, d1s)), sscale(2, u1s)), sscale(6, u2s)),
            sscale(9, d2s),
        ),
    ));
    let d3 = diff_at(s, &u3, desc, Ghost(u3s));
    let ghost d3s = sp_diff(s, u3s, gd);
    proof {
        lemma_sp_diff_wf(s, u3s, gd);
        lemma_sscale_wf(2, u2s);
        lemma_sscale_wf(2, u3s);
        lemma_sadd_wf(sscale(2, u1s), d1s);
        lemma_sadd_wf(sadd(sscale(2, u1s), d1s), sscale(2, u2s));
        lemma_sadd_wf(sadd(sadd(sscale(2, u1s), d1s), sscale(2, u2s)), sscale(2, u3s));
        lemma_sadd_wf(
            sadd(sadd(sadd(sscale(2, u1s), d1s), sscale(2, u2s)), sscale(2, u3s)),
            d3s,
        );
    }
    let t1 = vadd_t(&s2u1, &d1, Ghost(sscale(2, u1s)), Ghost(d1s));
    let s2u2 = vscale_t(2, &u2, Ghost(u2s));
    let t2 = vadd_t(&t1, &s2u2, Ghost(sadd(sscale(2, u1s), d1s)), Ghost(sscale(2, u2s)));
    let s2u3 = vscale_t(2, &u3, Ghost(u3s));
    let t3 = vadd_t(&t2, &s2u3, Ghost(sadd(sadd(sscale(2, u1s), d1s), sscale(2, u2s))), Ghost(
        sscale(2, u3s),
    ));
    let t4 = vadd_t(&t3, &d3, Ghost(
        sadd(sadd(sadd(sscale(2, u1s), d1s), sscale(2, u2s)), sscale(2, u3s)),
    ), Ghost(d3s));
    vdivk_t(&t4, 6, Ghost(
        sadd(sadd(sadd(sadd(sscale(2, u1s), d1s), sscale(2, u2s)), sscale(2, u3s)), d3s),
    ))
}

/// One step of the selected temporal scheme over the selected spatial
/// scheme (CIP excluded: it integrates itself).
pub fn advance(u: &Vec<Real>, t: TemporalScheme, s: SpatialScheme, desc: &Descriptor) -> (r: Vec<
    Real,
>)
    requires
        desc_wf(desc@),
        qs_wf(vals(u@)),
    ensures
        r@.len() == u@.len(),
        qs_eq(vals(r@), sp_advance(t, s, vals(u@), desc@)),
        qs_wf(vals(r@)),
{
    match t {
        TemporalScheme::ForwardEuler => forward_euler(u, s, desc),
        TemporalScheme::Rk2 => rk2(u, s, desc),
        TemporalScheme::Rk3 => rk3(u, s, desc),
        TemporalScheme::Rk4 => rk4(u, s, desc),
        TemporalScheme::TvdRk2 => tvd_rk2(u, s, desc),
        TemporalScheme::TvdRk3 => tvd_rk3(u, s, desc),
        TemporalScheme::TvdRk4 => tvd_rk4(u, s, desc),
    }
}

} // verus!
