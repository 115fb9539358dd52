//! Scenario state: parameters, buffers, initial condition, and stepping.

use vstd::prelude::*;

use crate::exact::{mul_t, neg_t, q_round, Real};
use crate::grid::vals;
use crate::rat::{q_div, q_eq, q_frac, q_int, q_mul, q_neg, qs_eq, qs_wf, Q};
use crate::SpatialScheme;
use crate::TemporalScheme;

verus! {

broadcast use crate::rat::qwf;

/// The parameter record consulted by every scheme and integrator.
pub struct Descriptor {
    /// Wall-clock speed multiplier; read only by the external driver.
    pub time_scale: Real,
    /// Time step size.
    pub delta_t: Real,
    /// Spatial step size.
    pub delta_x: Real,
    /// Domain length.
    pub bound: Real,
    /// Left edge of the initial pulse.
    pub x_1: Real,
    /// Right edge of the initial pulse.
    pub x_2: Real,
    /// Advection velocity.
    pub vel: Real,
    pub spatial_scheme: SpatialScheme,
    pub temporal_scheme: TemporalScheme,
}

/// The mathematical content of a `Descriptor`.
pub ghost struct DescV {
    pub time_scale: Q,
    pub delta_t: Q,
    pub delta_x: Q,
    pub bound: Q,
    pub x_1: Q,
    pub x_2: Q,
    pub vel: Q,
    pub spatial_scheme: SpatialScheme,
    pub temporal_scheme: TemporalScheme,
}

impl View for Descriptor {
    type V = DescV;

    open spec fn view(&self) -> DescV {
        DescV {
            time_scale: self.time_scale@,
            delta_t: self.delta_t@,
            delta_x: self.delta_x@,
            bound: self.bound@,
            x_1: self.x_1@,
            x_2: self.x_2@,
            vel: self.vel@,
            spatial_scheme: self.spatial_scheme,
            temporal_scheme: self.temporal_scheme,
        }
    }
}

/// Parameters the engine can run on: positive spatial step, and a
/// non-negative domain and pulse interval. The time step and velocity are
/// free (a zero time step is a valid, stationary configuration).
pub open spec fn desc_wf(d: DescV) -> bool {
    &&& d.time_scale.d > 0
    &&& d.delta_t.d > 0
    &&& d.delta_x.d > 0
    &&& d.bound.d > 0
    &&& d.x_1.d > 0
    &&& d.x_2.d > 0
    &&& d.vel.d > 0
    &&& d.delta_x.n > 0
    &&& d.bound.n >= 0
    &&& d.x_1.n >= 0
    &&& d.x_2.n >= 0
}

/// The shift `p = -v * delta_t` every scheme advances by.
pub open spec fn p_of(d: DescV) -> Q {
    q_mul(q_neg(d.vel), d.delta_t)
}

impl Descriptor {
    /// The default parameter set.
    pub fn new() -> (r: Descriptor)
        ensures
            q_eq(r@.time_scale, q_int(1)),
            q_eq(r@.delta_t, q_frac(1666, 100000)),
            q_eq(r@.delta_x, q_frac(1, 20)),
            q_eq(r@.bound, q_int(10)),
            q_eq(r@.x_1, q_int(2)),
            q_eq(r@.x_2, q_int(4)),
            q_eq(r@.vel, q_int(1)),
            r@.spatial_scheme == SpatialScheme::WENO,
            r@.temporal_scheme == TemporalScheme::ForwardEuler,
            desc_wf(r@),
    {
        Descriptor {
            time_scale: Real::from_int(1),
            delta_t: Real::from_ratio(1666, 100000),
            delta_x: Real::from_ratio(1, 20),
            bound: Real::from_int(10),
            x_1: Real::from_int(2),
            x_2: Real::from_int(4),
            vel: Real::from_int(1),
            spatial_scheme: SpatialScheme::WENO,
            temporal_scheme: TemporalScheme::ForwardEuler,
        }
    }

    /// An identical copy.
    pub fn dup(&self) -> (r: Descriptor)
        ensures
            r@ == self@,
    {
        Descriptor {
            time_scale: self.time_scale.dup(),
            delta_t: self.delta_t.dup(),
            delta_x: self.delta_x.dup(),
            bound: self.bound.dup(),
            x_1: self.x_1.dup(),
            x_2: self.x_2.dup(),
            vel: self.vel.dup(),
            spatial_scheme: self.spatial_scheme,
            temporal_scheme: self.temporal_scheme,
        }
    }
}

/// The shift `p = -v * delta_t` as an executable value.
pub fn p_t(desc: &Descriptor) -> (p: Real)
    requires
        desc_wf(desc@),
    ensures
        q_eq(p@, p_of(desc@)),
        p@.d > 0,
{
    let nv = neg_t(&desc.vel, Ghost(desc@.vel));
    mul_t(&nv, &desc.delta_t, Ghost(q_neg(desc@.vel)), Ghost(desc@.delta_t))
}

/// `round(x / delta_x)`: the grid index of the coordinate `x`.
pub open spec fn sp_discretize(x: Q, d: DescV) -> int {
    q_round(q_div(x, d.delta_x))
}

/// The grid index of the non-negative coordinate `x`.
pub fn discretize(x: &Real, desc: &Descriptor) -> (r: usize)
    requires
        desc_wf(desc@),
        x@.d > 0,
        x@.n >= 0,
        sp_discretize(x@, desc@) <= usize::MAX,
    ensures
        r == sp_discretize(x@, desc@),
{
    let q = crate::exact::div_t(x, &desc.delta_x, Ghost(x@), Ghost(desc@.delta_x));
    proof {
        assert(q_div(x@, desc@.delta_x).n == x@.n * desc@.delta_x.d);
        assert(x@.n * desc@.delta_x.d >= 0) by (nonlinear_arith)
            requires
                x@.n >= 0,
                desc@.delta_x.d > 0,
        ;
    }
    crate::exact::round_t(&q, Ghost(q_div(x@, desc@.delta_x)))
}

/// The grid indices of the three coordinates fit in `usize`.
pub open spec fn desc_fits(d: DescV) -> bool {
    &&& sp_discretize(d.bound, d) <= usize::MAX
    &&& sp_discretize(d.x_1, d) <= usize::MAX
    &&& sp_discretize(d.x_2, d) <= usize::MAX
}

/// The initial square pulse: `1` on the indices discretized from
/// `[x_1, x_2)`, `0` elsewhere.
pub open spec fn sp_square_wave(n: int, d: DescV) -> Seq<Q> {
    Seq::new(
        n as nat,
        |i: int|
            if sp_discretize(d.x_1, d) <= i < sp_discretize(d.x_2, d) {
                q_int(1)
            } else {
                q_int(0)
            },
    )
}

/// Builds the square pulse over a grid of the same length as `u`.
#[verifier::loop_isolation(false)]
pub fn init_square_wave(u: &Vec<Real>, desc: &Descriptor) -> (ret: Vec<Real>)
    requires
        desc_wf(desc@),
        desc_fits(desc@),
    ensures
        ret@.len() == u@.len(),
        vals(ret@) == sp_square_wave(u@.len() as int, desc@),
        qs_wf(vals(ret@)),
{
    let n = u.len();
    let lower = discretize(&desc.x_1, desc);
    let upper = discretize(&desc.x_2, desc);
    let mut ret: Vec<Real> = Vec::new();
    for i in 0..n
        invariant
            ret@.len() == i,
            forall|j: int| 0 <= j < i ==> (#[trigger] ret@[j]@) == sp_square_wave(n as int, desc@)[j],
    {
        if lower <= i && i < upper {
            ret.push(Real::from_int(1));
        } else {
            ret.push(Real::from_int(0));
        }
    }
    proof {
        assert forall|j: int| 0 <= j < n implies (#[trigger] vals(ret@)[j]) == sp_square_wave(
            n as int,
            desc@,
        )[j] by {
            assert(vals(ret@)[j] == ret@[j]@);
        }
        assert(vals(ret@) =~= sp_square_wave(n as int, desc@));
    }
    ret
}

/// The field state: one array for the ordinary schemes, a value/slope pair
/// for CIP. The variant is fixed at construction from the chosen scheme,
/// so a scheme/buffer mismatch is unrepresentable.
pub enum Buffer {
    Base { u: Vec<Real> },
    CIP { u: Vec<Real>, g: Vec<Real> },
}

/// A steppable pairing of parameters and field state.
pub struct Scenario {
    pub desc: Descriptor,
    buffer: Buffer,
}

impl Scenario {
    /// The value field, as rationals.
    pub closed spec fn u_of(self) -> Seq<Q> {
        match self.buffer {
            Buffer::Base { u } => vals(u@),
            Buffer::CIP { u, g } => vals(u@),
        }
    }

    /// The slope field (CIP only), as rationals.
    pub closed spec fn g_of(self) -> Seq<Q> {
        match self.buffer {
            Buffer::Base { u } => Seq::empty(),
            Buffer::CIP { u, g } => vals(g@),
        }
    }

    /// Well-formed: the buffer variant matches the scheme, parameters are
    /// sound, and every stored rational has a positive denominator.
    pub closed spec fn inv(self) -> bool {
        &&& desc_wf(self.desc@)
        &&& qs_wf(self.u_of())
        &&& match self.buffer {
            Buffer::Base { u } => self.desc@.spatial_scheme != SpatialScheme::CIP,
            Buffer::CIP { u, g } => {
                &&& self.desc@.spatial_scheme == SpatialScheme::CIP
                &&& u@.len() == g@.len()
                &&& qs_wf(vals(g@))
            },
        }
    }

    /// Builds the buffer for the descriptor's scheme and initializes the
    /// value field with the square pulse (the CIP slope field starts at
    /// zero).
    pub fn new(desc: Descriptor) -> (r: Scenario)
        requires
            desc_wf(desc@),
            desc_fits(desc@),
        ensures
            r.inv(),
            r@ == desc@,
            r.u_of() == sp_square_wave(sp_discretize(desc@.bound, desc@), desc@),
            desc@.spatial_scheme == SpatialScheme::CIP ==> r.g_of() == Seq::new(
                r.u_of().len(),
                |i: int| q_int(0),
            ),
    {
        let n = discretize(&desc.bound, &desc);
        let z = crate::grid::zeros(n);
        let u = init_square_wave(&z, &desc);
        let buffer = (if matches!(desc.spatial_scheme, SpatialScheme::CIP) {
            let g = crate::grid::zeros(n);
            proof {
                assert(vals(g@) =~= Seq::new(n as nat, |i: int| q_int(0)));
            }
            Buffer::CIP { u, g }
        } else {
            Buffer::Base { u }
        });
        Scenario { desc, buffer }
    }

    /// Advances exactly one time step of size `delta_t`, replacing the
    /// field arrays wholesale.
    pub fn forward(&mut self)
        requires
            old(self).inv(),
        ensures
            final(self).inv(),
            final(self)@ == old(self)@,
            old(self)@.spatial_scheme != SpatialScheme::CIP ==> qs_eq(
                final(self).u_of(),
                crate::integrators::sp_advance(
                    old(self)@.temporal_scheme,
                    old(self)@.spatial_scheme,
                    old(self).u_of(),
                    old(self)@,
                ),
            ) && final(self).u_of().len() == old(self).u_of().len(),
            old(self)@.spatial_scheme == SpatialScheme::CIP ==> qs_eq(
                final(self).u_of(),
                crate::schemes::sp_cip_unew(old(self).u_of(), old(self).g_of(), old(self)@),
            ) && qs_eq(
                final(self).g_of(),
                crate::schemes::sp_cip_gnew(old(self).u_of(), old(self).g_of(), old(self)@),
            ) && final(self).u_of().len() == old(self).u_of().len(),
    {
        match &self.buffer {
            Buffer::Base { u } => {
                let nu = crate::integrators::advance(
                    u,
                    self.desc.temporal_scheme,
                    self.desc.spatial_scheme,
                    &self.desc,
                );
                self.buffer = Buffer::Base { u: nu };
            },
            Buffer::CIP { u, g } => {
                let pair = crate::schemes::cip(u, g, &self.desc);
                self.buffer = Buffer::CIP { u: pair.0, g: pair.1 };
            },
        }
    }

    /// A `(position, value)` snapshot of the value field, with
    /// `position = index * delta_x`.
    #[verifier::loop_isolation(false)]
    pub fn values(&self) -> (r: Vec<(Real, Real)>)
        requires
            self.inv(),
        ensures
            r@.len() == self.u_of().len(),
            forall|i: int|
                0 <= i < r@.len() ==> q_eq(
                    (#[trigger] r@[i]).0@,
                    q_mul(q_int(i), self@.delta_x),
                ) && r@[i].1@ == self.u_of()[i],
    {
        let u = match &self.buffer {
            Buffer::Base { u } => u,
            Buffer::CIP { u, g } => u,
        };
        proof {
            crate::grid::lemma_vals_open(u@, self.u_of());
        }
        let n = u.len();
        let mut r: Vec<(Real, Real)> = Vec::new();
        for i in 0..n
            invariant
                r@.len() == i,
                forall|j: int|
                    0 <= j < i ==> q_eq(
                        (#[trigger] r@[j]).0@,
                        q_mul(q_int(j), self@.delta_x),
                    ) && r@[j].1@ == self.u_of()[j],
        {
            let iv = Real::from_usize(i);
            let pos = mul_t(&iv, &self.desc.delta_x, Ghost(q_int(i as int)), Ghost(
                self.desc@.delta_x,
            ));
            let val = u[i].dup();
            r.push((pos, val));
        }
        r
    }
}

impl View for Scenario {
    type V = DescV;

    closed spec fn view(&self) -> DescV {
        self.desc@
    }
}

} // verus!
