//! A verified engine for the one-dimensional linear advection equation
//! `du/dt + v * du/dx = 0`, discretized on a uniform grid.
//!
//! Field values are exact rational numbers, so every spatial scheme
//! (central, upwind, Lax-Wendroff, ENO, WENO, CIP) and every temporal
//! integrator (forward Euler and the Runge-Kutta family) carries a
//! contract that pins its result down exactly.

pub mod rat;
pub mod exact;
pub mod grid;
pub mod integrators;
pub mod laws;
pub mod schemes;
pub mod simulation;

use vstd::prelude::*;

verus! {

/// The spatial discretization scheme a scenario advances with.
#[derive(Clone, Copy, PartialEq, Eq, Structural, Debug)]
pub enum SpatialScheme {
    Central,
    Upwind,
    LaxWendroff,
    ENO,
    WENO,
    CIP,
}

/// The temporal integration scheme driving a non-CIP spatial scheme.
#[derive(Clone, Copy, PartialEq, Eq, Structural, Debug)]
pub enum TemporalScheme {
    ForwardEuler,
    Rk2,
    Rk3,
    Rk4,
    TvdRk2,
    TvdRk3,
    TvdRk4,
}

} // verus!
