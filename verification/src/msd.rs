//! The concrete model: a damped spring-mass oscillator.
//!
//! State vector: `[position, velocity]`.  The dynamics are
//! `position' = velocity` and
//! `velocity' = (-c * velocity - k * position) / m`.

use vstd::prelude::*;

use crate::fixed::{div_raw, fits_i64, mul_raw, tdiv, Fixed, SCALE};
use crate::model::{raw_seq, Explicit};
use crate::rk4::{adv_ok, adv_state, seq_add, seq_div, seq_mul, step_ok, step_spec};
use crate::OdeError;

verus! {

/// Parameters and initial conditions of a damped spring-mass
/// oscillator, together with its stepping configuration.  Immutable
/// once constructed.
#[derive(Clone, Copy, Debug, PartialEq, Eq, Structural)]
pub struct MassSpringDamper {
    /// Spring constant.
    pub k: Fixed,
    /// Damping coefficient.
    pub c: Fixed,
    /// Mass.
    pub m: Fixed,
    /// Initial position.
    pub x0: Fixed,
    /// Initial velocity.
    pub v0: Fixed,
    /// Number of steps a run takes.
    pub n: i32,
    /// Step size.
    pub delta_t: Fixed,
}

impl MassSpringDamper {
    /// A model from explicit parameters.
    pub fn new(k: Fixed, c: Fixed, m: Fixed, x0: Fixed, v0: Fixed, n: i32, delta_t: Fixed) -> (r:
        MassSpringDamper)
        ensures
            r == (MassSpringDamper { k, c, m, x0, v0, n, delta_t }),
    {
        MassSpringDamper { k, c, m, x0, v0, n, delta_t }
    }

    /// The initial state vector `[x0, v0]`.
    pub fn initial_state(&self) -> (s: Vec<Fixed>)
        ensures
            s@.len() == 2,
            s@[0] == self.x0,
            s@[1] == self.v0,
    {
        let mut s: Vec<Fixed> = Vec::new();
        s.push(self.x0);
        s.push(self.v0);
        s
    }
}

impl Default for MassSpringDamper {
    /// The stock configuration: unit spring constant, damping and
    /// mass, the system at rest displacement with unit initial
    /// velocity, advanced for a thousand steps of one hundredth.
    fn default() -> (r: MassSpringDamper)
        ensures
            r.k@ == SCALE,
            r.c@ == SCALE,
            r.m@ == SCALE,
            r.x0@ == 0,
            r.v0@ == SCALE,
            r.n == 1000,
            r.delta_t@ == tdiv(SCALE as int, 100),
    {
        let one = Fixed { raw: SCALE };
        let dt = Fixed { raw: 42949672 };
        proof {
            assert(tdiv(SCALE as int, 100) == 4294967296int / 100);
        }
        MassSpringDamper {
            k: one,
            c: one,
            m: one,
            x0: Fixed { raw: 0 },
            v0: one,
            n: 1000,
            delta_t: dt,
        }
    }
}

impl Explicit for MassSpringDamper {
    open spec fn dim_spec(&self) -> nat {
        2
    }

    open spec fn deriv_ok(&self, s: Seq<int>, t: int) -> bool {
        &&& fits_i64(-self.c@)
        &&& fits_i64(mul_raw(-self.c@, s[1]))
        &&& fits_i64(mul_raw(self.k@, s[0]))
        &&& fits_i64(mul_raw(-self.c@, s[1]) - mul_raw(self.k@, s[0]))
        &&& self.m@ != 0
        &&& fits_i64(div_raw(mul_raw(-self.c@, s[1]) - mul_raw(self.k@, s[0]), self.m@))
    }

    open spec fn deriv_spec(&self, s: Seq<int>, t: int) -> Seq<int> {
        seq![s[1], div_raw(mul_raw(-self.c@, s[1]) - mul_raw(self.k@, s[0]), self.m@)]
    }

    proof fn deriv_spec_len(&self, s: Seq<int>, t: int) {
    }

    fn model_size(&self) -> (d: usize) {
        2
    }

    fn rhs(&self, state: &Vec<Fixed>, t: Fixed) -> (r: Result<Vec<Fixed>, OdeError>) {
        let x = state[0];
        let v = state[1];
        let nc = match self.c.checked_neg() {
            Some(w) => w,
            None => {
                return Err(OdeError::Overflow);
            },
        };
        let a = match nc.checked_mul(v) {
            Some(w) => w,
            None => {
                return Err(OdeError::Overflow);
            },
        };
        let b = match self.k.checked_mul(x) {
            Some(w) => w,
            None => {
                return Err(OdeError::Overflow);
            },
        };
        let num = match a.checked_sub(b) {
            Some(w) => w,
            None => {
                return Err(OdeError::Overflow);
            },
        };
        let acc = match num.checked_div(self.m) {
            Some(w) => w,
            None => {
                return Err(OdeError::Overflow);
            },
        };
        let mut d: Vec<Fixed> = Vec::new();
        d.push(v);
        d.push(acc);
        proof {
            assert(raw_seq(d@) =~= self.deriv_spec(raw_seq(state@), t@));
        }
        Ok(d)
    }
}

/// The rest state of the oscillator: zero position, zero velocity.
pub open spec fn rest_state() -> Seq<int> {
    seq![0int, 0int]
}

/// The rest state with no forcing is a fixed point of one step of
/// the dynamics: for any spring constant, any mass other than zero
/// and any damping whose negation is representable, a Runge-Kutta
/// step from `[0, 0]` stays representable and returns exactly
/// `[0, 0]`, whatever the time and the step size.
pub proof fn lemma_rest_state_step(md: MassSpringDamper, t: int, dt: int)
    requires
        md.m@ != 0,
        md.c@ != i64::MIN,
        fits_i64(t + tdiv(dt, 2)),
        fits_i64(t + dt),
    ensures
        step_ok(md, rest_state(), t, dt),
        step_spec(md, rest_state(), t, dt) == rest_state(),
{
    let z = rest_state();
    assert(mul_raw(-md.c@, 0) == 0);
    assert(mul_raw(md.k@, 0) == 0);
    assert(div_raw(0, md.m@) == 0);
    assert(md.deriv_spec(z, t) =~= z);
    assert(mul_raw(0, dt) == 0);
    assert(seq_mul(z, dt) =~= z);
    assert(tdiv(0, 2) == 0);
    assert(seq_div(z, 2) =~= z);
    assert(seq_add(z, z) =~= z);
    assert(md.deriv_spec(z, t + tdiv(dt, 2)) =~= z);
    assert(md.deriv_spec(z, t + dt) =~= z);
    assert(tdiv(0, 6) == 0);
    assert(step_spec(md, z, t, dt) =~= z);
}

/// Whether the time of step `j` of a run from `t0` with step size
/// `dt`, and the half-step time inside it, are representable.
pub open spec fn step_time_fits(t0: int, dt: int, j: int) -> bool {
    fits_i64(t0 + j * dt + tdiv(dt, 2)) && fits_i64(t0 + j * dt + dt)
}

/// The rest state with no forcing is a fixed point of the whole run:
/// starting from `[0, 0]`, every one of `n` steps stays representable
/// and the state after each of them is exactly `[0, 0]`, as long as
/// the sample times themselves stay representable.
pub proof fn lemma_rest_state_fixed(md: MassSpringDamper, t0: int, dt: int, n: nat)
    requires
        md.m@ != 0,
        md.c@ != i64::MIN,
        forall|j: int| 0 <= j < n ==> #[trigger] step_time_fits(t0, dt, j),
    ensures
        adv_ok(md, rest_state(), t0, dt, n),
        adv_state(md, rest_state(), t0, dt, n) == rest_state(),
    decreases n,
{
    if n > 0 {
        assert(step_time_fits(t0, dt, 0));
        assert(fits_i64(t0 + 0 * dt + tdiv(dt, 2)) && fits_i64(t0 + 0 * dt + dt));
        lemma_rest_state_step(md, t0, dt);
        assert forall|j: int| 0 <= j < n - 1 implies #[trigger] step_time_fits(
            t0 + dt,
            dt,
            j,
        ) by {
            assert(step_time_fits(t0, dt, j + 1));
            assert(t0 + (j + 1) * dt == (t0 + dt) + j * dt) by (nonlinear_arith);
        }
        lemma_rest_state_fixed(md, t0 + dt, dt, (n - 1) as nat);
    }
}

} // verus!
