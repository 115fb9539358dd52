use advection::exact::Real;
use advection::integrators::{forward_euler, rk2, rk3, rk4, tvd_rk2, tvd_rk3, tvd_rk4};
use advection::schemes::{
    backward_diff, central_diff, cip, eno_diff, forward_diff, lax_wendroff_diff, upwind_diff,
    weno_diff,
};
use advection::simulation::Descriptor;
use advection::{SpatialScheme, TemporalScheme};

/// Unit grid spacing, time step 1/2, velocity `vel`: `p = -vel/2`.
fn unit_descriptor(vel: i64, spatial: SpatialScheme) -> Descriptor {
    Descriptor {
        time_scale: Real::from_int(1),
        delta_t: Real::from_ratio(1, 2),
        delta_x: Real::from_int(1),
        bound: Real::from_int(1),
        x_1: Real::from_int(0),
        x_2: Real::from_int(1),
        vel: Real::from_int(vel),
        spatial_scheme: spatial,
        temporal_scheme: TemporalScheme::ForwardEuler,
    }
}

/// The field u[i] = i.
fn linear_field(n: i64) -> Vec<Real> {
    (0..n).map(Real::from_int).collect()
}

fn assert_value(v: &Real, n: i64, d: i64) {
    assert!(v.value_eq(&Real::from_ratio(n, d)), "value off");
}

#[test]
fn central_on_linear_field() {
    let desc = unit_descriptor(1, SpatialScheme::Central);
    let u = linear_field(10);
    let inc = central_diff(&u, &desc);
    assert_value(&inc[0], 0, 1);
    assert_value(&inc[9], 0, 1);
    for i in 1..9 {
        // gradient 1, p = -1/2
        assert_value(&inc[i], -1, 2);
    }
}

#[test]
fn upwind_direction_dispatch() {
    // v >= 0: backward differences, node 0 frozen, node n-1 active.
    let desc = unit_descriptor(1, SpatialScheme::Upwind);
    let u = linear_field(6);
    let inc = upwind_diff(&u, &desc);
    assert_value(&inc[0], 0, 1);
    for i in 1..6 {
        assert_value(&inc[i], -1, 2);
    }
    // v < 0: forward differences, node 0 active, node n-1 frozen.
    let desc = unit_descriptor(-1, SpatialScheme::Upwind);
    let inc = upwind_diff(&u, &desc);
    assert_value(&inc[5], 0, 1);
    for i in 0..5 {
        // p = 1/2 now
        assert_value(&inc[i], 1, 2);
    }
}

#[test]
fn one_sided_differences_on_linear_field() {
    let desc = unit_descriptor(1, SpatialScheme::Upwind);
    let u = linear_field(5);
    let b = backward_diff(&u, &desc);
    assert_value(&b[0], 0, 1);
    for i in 1..5 {
        assert_value(&b[i], -1, 2);
    }
    let f = forward_diff(&u, &desc);
    assert_value(&f[4], 0, 1);
    for i in 0..4 {
        assert_value(&f[i], -1, 2);
    }
}

#[test]
fn lax_wendroff_on_linear_field() {
    // gradient 1, curvature 0: the second-order correction vanishes.
    let desc = unit_descriptor(1, SpatialScheme::LaxWendroff);
    let u = linear_field(8);
    let inc = lax_wendroff_diff(&u, &desc);
    assert_value(&inc[0], 0, 1);
    assert_value(&inc[7], 0, 1);
    for i in 1..7 {
        assert_value(&inc[i], -1, 2);
    }
}

#[test]
fn lax_wendroff_curvature_term() {
    // u = [0, 0, 1, 0, 0]: at i = 2, grad1 = 0 and grad2 = -1, so the
    // increment is p^2 * grad2 = -1/4.
    let desc = unit_descriptor(1, SpatialScheme::LaxWendroff);
    let u = vec![
        Real::from_int(0),
        Real::from_int(0),
        Real::from_int(1),
        Real::from_int(0),
        Real::from_int(0),
    ];
    let inc = lax_wendroff_diff(&u, &desc);
    assert_value(&inc[2], -1, 4);
    // at i = 1: grad1 = 1/2, grad2 = 1/2: -1/4 + 1/8 = -1/8
    assert_value(&inc[1], -1, 8);
}

#[test]
fn eno_on_linear_field() {
    // All higher differences vanish; only the first-order term is left.
    let desc = unit_descriptor(1, SpatialScheme::ENO);
    let u = linear_field(10);
    let inc = eno_diff(&u, &desc);
    for i in 0..3 {
        assert_value(&inc[i], 0, 1);
    }
    for i in 7..10 {
        assert_value(&inc[i], 0, 1);
    }
    for i in 3..7 {
        assert_value(&inc[i], -1, 2);
    }
}

#[test]
fn weno_on_linear_field() {
    // Every candidate derivative is 1 and the weights sum to one, so the
    // increment is exactly p = -1/2 on the interior.
    let desc = unit_descriptor(1, SpatialScheme::WENO);
    let u = linear_field(10);
    let inc = weno_diff(&u, &desc);
    for i in 0..3 {
        assert_value(&inc[i], 0, 1);
    }
    for i in 7..10 {
        assert_value(&inc[i], 0, 1);
    }
    for i in 3..7 {
        assert_value(&inc[i], -1, 2);
    }
}

#[test]
fn weno_interior_on_eight_nodes() {
    // n = 8 leaves exactly the indices 3 and 4 inside `3 <= i < n-3`; all
    // others must be zero whatever the field holds.
    let desc = unit_descriptor(1, SpatialScheme::WENO);
    let u = vec![
        Real::from_int(5),
        Real::from_int(-3),
        Real::from_int(17),
        Real::from_int(2),
        Real::from_int(11),
        Real::from_int(-7),
        Real::from_int(23),
        Real::from_int(1),
    ];
    let inc = weno_diff(&u, &desc);
    let zero = Real::from_int(0);
    for i in [0usize, 1, 2, 5, 6, 7] {
        assert!(inc[i].value_eq(&zero));
    }
}

#[test]
fn integrators_agree_on_linear_field() {
    // Away from the boundary pollution, every integrator applied to the
    // central scheme on u[i] = i produces i - 1/2.
    let desc = unit_descriptor(1, SpatialScheme::Central);
    let u = linear_field(14);
    let s = SpatialScheme::Central;
    let results = [
        forward_euler(&u, s, &desc),
        rk2(&u, s, &desc),
        rk3(&u, s, &desc),
        rk4(&u, s, &desc),
        tvd_rk2(&u, s, &desc),
        tvd_rk3(&u, s, &desc),
        tvd_rk4(&u, s, &desc),
    ];
    for r in results.iter() {
        assert_eq!(r.len(), 14);
        assert_value(&r[6], 11, 2);
        assert_value(&r[7], 13, 2);
    }
}

fn differ(a: &[Real], b: &[Real]) -> bool {
    a.iter().zip(b.iter()).any(|(x, y)| !x.value_eq(y))
}

#[test]
fn integrator_orders_on_a_pulse() {
    // The central scheme is a linear operator, so each TVD formula must
    // agree exactly with its classical counterpart on every field, while
    // different orders disagree on a pulse (higher difference powers of a
    // pulse do not vanish).
    let desc = unit_descriptor(1, SpatialScheme::Central);
    let mut u: Vec<Real> = (0..12).map(|_| Real::from_int(0)).collect();
    u[5] = Real::from_int(1);
    u[6] = Real::from_int(1);
    let s = SpatialScheme::Central;
    let fe = forward_euler(&u, s, &desc);
    let r2 = rk2(&u, s, &desc);
    let r3 = rk3(&u, s, &desc);
    let r4 = rk4(&u, s, &desc);
    let t2 = tvd_rk2(&u, s, &desc);
    let t3 = tvd_rk3(&u, s, &desc);
    let t4 = tvd_rk4(&u, s, &desc);
    assert!(differ(&fe, &r2));
    assert!(differ(&r2, &r3));
    assert!(differ(&r3, &r4));
    assert!(!differ(&r2, &t2));
    assert!(!differ(&r3, &t3));
    assert!(!differ(&r4, &t4));
}

#[test]
fn cip_zero_shift_is_identity() {
    // delta_t = 0 gives p = 0: the cubic profile is evaluated at the node
    // itself, so both fields come back unchanged.
    let mut desc = unit_descriptor(3, SpatialScheme::CIP);
    desc.delta_t = Real::from_int(0);
    let u = vec![
        Real::from_ratio(1, 3),
        Real::from_int(4),
        Real::from_ratio(-7, 5),
        Real::from_int(0),
        Real::from_ratio(22, 7),
    ];
    let g = vec![
        Real::from_int(1),
        Real::from_ratio(-1, 2),
        Real::from_int(2),
        Real::from_ratio(5, 9),
        Real::from_int(-3),
    ];
    let (nu, ng) = cip(&u, &g, &desc);
    for i in 0..5 {
        assert!(nu[i].value_eq(&u[i]));
        assert!(ng[i].value_eq(&g[i]));
    }
}

#[test]
fn cip_advects_a_linear_profile() {
    // u[i] = i with the exact slope g[i] = 1 is reproduced exactly by the
    // cubic profile: the update shifts by p, so u'[i] = i + p = i - 3/2
    // and the slope stays 1.
    let desc = Descriptor {
        time_scale: Real::from_int(1),
        delta_t: Real::from_ratio(3, 2),
        delta_x: Real::from_int(1),
        bound: Real::from_int(1),
        x_1: Real::from_int(0),
        x_2: Real::from_int(1),
        vel: Real::from_int(1),
        spatial_scheme: SpatialScheme::CIP,
        temporal_scheme: TemporalScheme::ForwardEuler,
    };
    let u = linear_field(6);
    let g: Vec<Real> = (0..6).map(|_| Real::from_int(1)).collect();
    let (nu, ng) = cip(&u, &g, &desc);
    // node 0 is left unmodified
    assert!(nu[0].value_eq(&Real::from_int(0)));
    assert!(ng[0].value_eq(&Real::from_int(1)));
    for i in 1..6 {
        assert!(nu[i].value_eq(&Real::from_ratio(2 * (i as i64) - 3, 2)));
        assert!(ng[i].value_eq(&Real::from_int(1)));
    }
}
