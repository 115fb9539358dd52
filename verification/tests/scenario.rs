use advection::exact::Real;
use advection::simulation::{Descriptor, Scenario};
use advection::{SpatialScheme, TemporalScheme};

fn descriptor(
    delta_t: (i64, i64),
    delta_x: (i64, i64),
    bound: (i64, i64),
    x_1: (i64, i64),
    x_2: (i64, i64),
    vel: (i64, i64),
    spatial: SpatialScheme,
    temporal: TemporalScheme,
) -> Descriptor {
    Descriptor {
        time_scale: Real::from_int(1),
        delta_t: Real::from_ratio(delta_t.0, delta_t.1),
        delta_x: Real::from_ratio(delta_x.0, delta_x.1),
        bound: Real::from_ratio(bound.0, bound.1),
        x_1: Real::from_ratio(x_1.0, x_1.1),
        x_2: Real::from_ratio(x_2.0, x_2.1),
        vel: Real::from_ratio(vel.0, vel.1),
        spatial_scheme: spatial,
        temporal_scheme: temporal,
    }
}

#[test]
fn square_pulse_discretization() {
    // delta_x = 0.1, bound = 1.0, pulse on [0.2, 0.5): n = 10, ones at 2, 3, 4.
    let desc = descriptor(
        (1, 100),
        (1, 10),
        (1, 1),
        (1, 5),
        (1, 2),
        (0, 1),
        SpatialScheme::Central,
        TemporalScheme::ForwardEuler,
    );
    let scenario = Scenario::new(desc);
    let vals = scenario.values();
    assert_eq!(vals.len(), 10);
    let one = Real::from_int(1);
    let zero = Real::from_int(0);
    for (i, (_, v)) in vals.iter().enumerate() {
        if (2..5).contains(&i) {
            assert!(v.value_eq(&one));
        } else {
            assert!(v.value_eq(&zero));
        }
    }
}

#[test]
fn zero_velocity_is_invariant() {
    // With v = 0 every scheme increment vanishes, so the field never moves.
    let desc = descriptor(
        (1, 100),
        (1, 10),
        (1, 1),
        (1, 5),
        (1, 2),
        (0, 1),
        SpatialScheme::Central,
        TemporalScheme::ForwardEuler,
    );
    let initial = Scenario::new(desc.dup());
    let before = initial.values();
    let mut scenario = Scenario::new(desc);
    for _ in 0..7 {
        scenario.forward();
    }
    let after = scenario.values();
    assert_eq!(before.len(), after.len());
    for ((_, a), (_, b)) in before.iter().zip(after.iter()) {
        // exact equality of the stored rationals, not just closeness
        assert_eq!(a.to_ratio(), b.to_ratio());
    }
}

#[test]
fn default_descriptor_grid() {
    // bound = 10, delta_x = 0.05: 200 nodes, pulse on indices 40..80.
    let desc = Descriptor::new();
    assert!(matches!(desc.spatial_scheme, SpatialScheme::WENO));
    assert!(matches!(desc.temporal_scheme, TemporalScheme::ForwardEuler));
    let scenario = Scenario::new(desc);
    let vals = scenario.values();
    assert_eq!(vals.len(), 200);
    let one = Real::from_int(1);
    let zero = Real::from_int(0);
    assert!(vals[39].1.value_eq(&zero));
    assert!(vals[40].1.value_eq(&one));
    assert!(vals[79].1.value_eq(&one));
    assert!(vals[80].1.value_eq(&zero));
    // position = index * delta_x
    assert!(vals[1].0.value_eq(&Real::from_ratio(1, 20)));
    assert!(vals[100].0.value_eq(&Real::from_int(5)));
}

#[test]
fn default_scenario_steps() {
    // The default WENO + forward Euler pairing advances without panicking
    // and keeps the grid size.
    let mut scenario = Scenario::new(Descriptor::new());
    scenario.forward();
    scenario.forward();
    assert_eq!(scenario.values().len(), 200);
}

#[test]
fn upwind_mass_is_conserved_away_from_boundaries() {
    // Upwind at v > 0 moves the pulse right; while the pulse stays away
    // from both ends the discrete sum is exactly constant.
    let desc = descriptor(
        (1, 20),
        (1, 10),
        (1, 1),
        (3, 10),
        (3, 5),
        (1, 1),
        SpatialScheme::Upwind,
        TemporalScheme::ForwardEuler,
    );
    let mut scenario = Scenario::new(desc);
    let total = |s: &Scenario| {
        let mut acc = num_rational::BigRational::from_integer(0.into());
        for (_, v) in s.values() {
            acc += v.to_ratio();
        }
        acc
    };
    let before = total(&scenario);
    for _ in 0..3 {
        scenario.forward();
    }
    let after = total(&scenario);
    assert_eq!(before, after);
}

#[test]
fn cip_scenario_with_zero_time_step_is_identity() {
    let desc = descriptor(
        (0, 1),
        (1, 10),
        (1, 1),
        (1, 5),
        (1, 2),
        (1, 1),
        SpatialScheme::CIP,
        TemporalScheme::ForwardEuler,
    );
    let initial = Scenario::new(desc.dup());
    let before = initial.values();
    let mut scenario = Scenario::new(desc);
    for _ in 0..4 {
        scenario.forward();
    }
    let after = scenario.values();
    for ((_, a), (_, b)) in before.iter().zip(after.iter()) {
        assert_eq!(a.to_ratio(), b.to_ratio());
    }
}

#[test]
fn discretize_rounds_half_away_from_zero() {
    let desc = descriptor(
        (1, 100),
        (1, 10),
        (1, 1),
        (0, 1),
        (1, 2),
        (1, 1),
        SpatialScheme::Central,
        TemporalScheme::ForwardEuler,
    );
    // 0.25 / 0.1 = 2.5 rounds to 3; 0.24 / 0.1 = 2.4 rounds to 2.
    assert_eq!(advection::simulation::discretize(&Real::from_ratio(1, 4), &desc), 3);
    assert_eq!(advection::simulation::discretize(&Real::from_ratio(6, 25), &desc), 2);
    assert_eq!(advection::simulation::discretize(&Real::from_int(0), &desc), 0);
}

#[test]
fn exact_value_comparisons() {
    let half = Real::from_ratio(1, 2);
    let also_half = Real::from_ratio(2, 4);
    let third = Real::from_ratio(1, 3);
    assert!(half.value_eq(&also_half));
    assert!(!half.value_eq(&third));
    assert!(third.value_le(&half));
    assert!(!half.value_le(&third));
    assert!(half.value_le(&also_half));
    let copy = third.dup();
    assert!(copy.value_eq(&third));
    // the stored rational is exact and reduced
    let r = also_half.to_ratio();
    assert_eq!(r, num_rational::BigRational::new(1.into(), 2.into()));
}
