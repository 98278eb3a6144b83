//! The integrator: the classical four-stage, fourth-order explicit
//! Runge-Kutta scheme with a fixed step size, generic over any model
//! that implements [`Explicit`].
//!
//! The integrator owns scratch buffers sized once, at construction,
//! to the model's dimension; a step reuses them and allocates nothing
//! for the state itself.  One step advances a caller-supplied state
//! vector in place by exactly one step size.

use vstd::prelude::*;
use vstd::pervasive::VecAdditionalExecFns;

use crate::fixed::{fits_i64, mul_raw, tdiv, Fixed};
use crate::model::{raw_seq, Explicit};
use crate::OdeError;

verus! {

/// Every component of `a`, times the scalar `c`, is representable.
pub open spec fn seq_mul_ok(a: Seq<int>, c: int) -> bool {
    forall|i: int| 0 <= i < a.len() ==> fits_i64(#[trigger] mul_raw(a[i], c))
}

/// Component-wise product of a vector with a scalar.
pub open spec fn seq_mul(a: Seq<int>, c: int) -> Seq<int> {
    Seq::new(a.len(), |i: int| mul_raw(a[i], c))
}

/// Every component-wise sum is representable.
pub open spec fn seq_add_ok(a: Seq<int>, b: Seq<int>) -> bool
    recommends
        a.len() == b.len(),
{
    forall|i: int| 0 <= i < a.len() ==> fits_i64(a[i] + b[i])
}

/// Component-wise sum of two vectors.
pub open spec fn seq_add(a: Seq<int>, b: Seq<int>) -> Seq<int>
    recommends
        a.len() == b.len(),
{
    Seq::new(a.len(), |i: int| a[i] + b[i])
}

/// Component-wise quotient of a vector by a small positive integer,
/// rounded toward zero.
pub open spec fn seq_div(a: Seq<int>, d: int) -> Seq<int>
    recommends
        d > 0,
{
    Seq::new(a.len(), |i: int| tdiv(a[i], d))
}

/// Whether one component of the final stage combination stays
/// representable, following the evaluation order of the
/// implementation: `k2 + k2`, `k3 + k3`, then the left-to-right sum
/// `k1 + (k2 + k2) + (k3 + k3) + k4`, its sixth, and the update.
pub open spec fn comb_ok_at(x0i: int, k1i: int, k2i: int, k3i: int, k4i: int) -> bool {
    &&& fits_i64(k2i + k2i)
    &&& fits_i64(k3i + k3i)
    &&& fits_i64(k1i + (k2i + k2i))
    &&& fits_i64(k1i + (k2i + k2i) + (k3i + k3i))
    &&& fits_i64(k1i + (k2i + k2i) + (k3i + k3i) + k4i)
    &&& fits_i64(x0i + tdiv(k1i + (k2i + k2i) + (k3i + k3i) + k4i, 6))
}

/// One component of the final combination:
/// `x0 + (k1 + 2 k2 + 2 k3 + k4) / 6`.
pub open spec fn comb_at(x0i: int, k1i: int, k2i: int, k3i: int, k4i: int) -> int {
    x0i + tdiv(k1i + (k2i + k2i) + (k3i + k3i) + k4i, 6)
}

/// The whole final combination stays representable.
pub open spec fn comb_ok(x0: Seq<int>, k1: Seq<int>, k2: Seq<int>, k3: Seq<int>, k4: Seq<
    int,
>) -> bool {
    forall|i: int|
        0 <= i < x0.len() ==> #[trigger] comb_ok_at(x0[i], k1[i], k2[i], k3[i], k4[i])
}

/// The final combination, component-wise.
pub open spec fn comb(x0: Seq<int>, k1: Seq<int>, k2: Seq<int>, k3: Seq<int>, k4: Seq<
    int,
>) -> Seq<int> {
    Seq::new(x0.len(), |i: int| comb_at(x0[i], k1[i], k2[i], k3[i], k4[i]))
}

/// Whether one Runge-Kutta step from raw state `x0` at raw time `t`
/// with raw step size `dt` stays representable throughout: the four
/// derivative evaluations, the four stage vectors, the two
/// intermediate times and the final combination.
pub open spec fn step_ok<F: Explicit>(f: F, x0: Seq<int>, t: int, dt: int) -> bool {
    let d1 = f.deriv_spec(x0, t);
    let k1 = seq_mul(d1, dt);
    let p2 = seq_add(x0, seq_div(k1, 2));
    let t2 = t + tdiv(dt, 2);
    let d2 = f.deriv_spec(p2, t2);
    let k2 = seq_mul(d2, dt);
    let p3 = seq_add(x0, seq_div(k2, 2));
    let d3 = f.deriv_spec(p3, t2);
    let k3 = seq_mul(d3, dt);
    let p4 = seq_add(x0, k3);
    let t4 = t + dt;
    let d4 = f.deriv_spec(p4, t4);
    let k4 = seq_mul(d4, dt);
    &&& f.deriv_ok(x0, t)
    &&& seq_mul_ok(d1, dt)
    &&& seq_add_ok(x0, seq_div(k1, 2))
    &&& fits_i64(t2)
    &&& f.deriv_ok(p2, t2)
    &&& seq_mul_ok(d2, dt)
    &&& seq_add_ok(x0, seq_div(k2, 2))
    &&& f.deriv_ok(p3, t2)
    &&& seq_mul_ok(d3, dt)
    &&& seq_add_ok(x0, k3)
    &&& fits_i64(t4)
    &&& f.deriv_ok(p4, t4)
    &&& seq_mul_ok(d4, dt)
    &&& comb_ok(x0, k1, k2, k3, k4)
}

/// The raw state after one Runge-Kutta step from raw state `x0` at
/// raw time `t` with raw step size `dt`:
///
/// 1. `k1 = f(x0, t) * dt`
/// 2. `k2 = f(x0 + k1/2, t + dt/2) * dt`
/// 3. `k3 = f(x0 + k2/2, t + dt/2) * dt`
/// 4. `k4 = f(x0 + k3, t + dt) * dt`
/// 5. result `= x0 + (k1 + 2 k2 + 2 k3 + k4) / 6`
pub open spec fn step_spec<F: Explicit>(f: F, x0: Seq<int>, t: int, dt: int) -> Seq<int> {
    let d1 = f.deriv_spec(x0, t);
    let k1 = seq_mul(d1, dt);
    let p2 = seq_add(x0, seq_div(k1, 2));
    let t2 = t + tdiv(dt, 2);
    let d2 = f.deriv_spec(p2, t2);
    let k2 = seq_mul(d2, dt);
    let p3 = seq_add(x0, seq_div(k2, 2));
    let d3 = f.deriv_spec(p3, t2);
    let k3 = seq_mul(d3, dt);
    let p4 = seq_add(x0, k3);
    let t4 = t + dt;
    let d4 = f.deriv_spec(p4, t4);
    let k4 = seq_mul(d4, dt);
    comb(x0, k1, k2, k3, k4)
}

/// Whether a whole run of `n` steps from raw state `x` at raw time
/// `t` stays representable: every step and every time increment.
pub open spec fn adv_ok<F: Explicit>(f: F, x: Seq<int>, t: int, dt: int, n: nat) -> bool
    decreases n,
{
    n == 0 || (step_ok(f, x, t, dt) && fits_i64(t + dt) && adv_ok(
        f,
        step_spec(f, x, t, dt),
        t + dt,
        dt,
        (n - 1) as nat,
    ))
}

/// The raw state `n` steps in from raw state `x` at raw time `t`.
pub open spec fn adv_state<F: Explicit>(f: F, x: Seq<int>, t: int, dt: int, n: nat) -> Seq<int>
    decreases n,
{
    if n == 0 {
        x
    } else {
        adv_state(f, step_spec(f, x, t, dt), t + dt, dt, (n - 1) as nat)
    }
}

/// The state `n + 1` steps in is one step from the state `n` steps
/// in, taken at time `t + n * dt`.
pub proof fn lemma_adv_state_step<F: Explicit>(f: F, x: Seq<int>, t: int, dt: int, n: nat)
    ensures
        adv_state(f, x, t, dt, n + 1) == step_spec(f, adv_state(f, x, t, dt, n), t + n * dt, dt),
    decreases n,
{
    if n == 0 {
        assert(adv_state(f, step_spec(f, x, t, dt), t + dt, dt, 0) == step_spec(f, x, t, dt));
        assert(adv_state(f, x, t, dt, 1) == step_spec(f, x, t, dt));
    } else {
        assert((t + dt) + (n - 1) * dt == t + n * dt) by (nonlinear_arith);
        lemma_adv_state_step(f, step_spec(f, x, t, dt), t + dt, dt, (n - 1) as nat);
    }
}

/// A run that stays representable for `n` steps, whose next step and
/// time increment stay representable too, stays representable for
/// `n + 1` steps.
pub proof fn lemma_adv_extend<F: Explicit>(f: F, x: Seq<int>, t: int, dt: int, n: nat)
    requires
        adv_ok(f, x, t, dt, n),
        step_ok(f, adv_state(f, x, t, dt, n), t + n * dt, dt),
        fits_i64(t + n * dt + dt),
    ensures
        adv_ok(f, x, t, dt, n + 1),
    decreases n,
{
    if n == 0 {
        assert(adv_state(f, x, t, dt, 0) == x);
        assert(adv_ok(f, step_spec(f, x, t, dt), t + dt, dt, 0));
        assert(adv_ok(f, x, t, dt, 1));
    } else {
        assert((t + dt) + (n - 1) * dt == t + n * dt) by (nonlinear_arith);
        lemma_adv_extend(f, step_spec(f, x, t, dt), t + dt, dt, (n - 1) as nat);
    }
}

/// A run whose step `i` (or the time increment after it) leaves the
/// representable range does not stay representable for any `n > i`.
pub proof fn lemma_adv_fail<F: Explicit>(f: F, x: Seq<int>, t: int, dt: int, i: nat, n: nat)
    requires
        i < n,
        adv_ok(f, x, t, dt, i),
        !step_ok(f, adv_state(f, x, t, dt, i), t + i * dt, dt) || !fits_i64(t + i * dt + dt),
    ensures
        !adv_ok(f, x, t, dt, n),
    decreases i,
{
    if i == 0 {
        assert(adv_state(f, x, t, dt, 0) == x);
        assert(adv_ok(f, x, t, dt, n) ==> step_ok(f, x, t, dt) && fits_i64(t + dt));
    } else {
        assert((t + dt) + (i - 1) * dt == t + i * dt) by (nonlinear_arith);
        lemma_adv_fail(f, step_spec(f, x, t, dt), t + dt, dt, (i - 1) as nat, (n - 1) as nat);
    }
}

/// A `(time, state)` pair of a trajectory.
#[derive(Debug)]
pub struct Sample {
    /// The time of this sample.
    pub t: Fixed,
    /// The state vector at that time.
    pub state: Vec<Fixed>,
}

/// The classical fourth-order Runge-Kutta integrator over a model
/// `F`, with its fixed step size and its scratch stage buffers.
pub struct RK4<F: Explicit> {
    f: F,
    dt: Fixed,
    x: Vec<Fixed>,
    k1: Vec<Fixed>,
    k2: Vec<Fixed>,
    k3: Vec<Fixed>,
}

impl<F: Explicit> RK4<F> {
    /// The model this integrator advances.
    pub closed spec fn model(&self) -> F {
        self.f
    }

    /// The step size this integrator advances by.
    pub closed spec fn dt_spec(&self) -> Fixed {
        self.dt
    }

    /// Well-formedness: a positive step size, a state space with at
    /// least one degree of freedom, and scratch buffers sized to it.
    pub closed spec fn wf(&self) -> bool {
        &&& self.dt@ > 0
        &&& self.f.dim_spec() > 0
        &&& self.x@.len() == self.f.dim_spec()
        &&& self.k1@.len() == self.f.dim_spec()
        &&& self.k2@.len() == self.f.dim_spec()
        &&& self.k3@.len() == self.f.dim_spec()
    }

    /// An integrator for `f` with fixed step size `dt`, its stage
    /// buffers allocated once and zeroed.  Rejects a zero or negative
    /// step size and a model without degrees of freedom.
    pub fn new(f: F, dt: Fixed) -> (r: Result<RK4<F>, OdeError>)
        ensures
            r is Err <==> (dt@ <= 0 || f.dim_spec() == 0),
            match r {
                Ok(s) => s.wf() && s.model() == f && s.dt_spec() == dt,
                Err(e) => e == (if dt@ <= 0 {
                    OdeError::NonPositiveStep
                } else {
                    OdeError::ZeroDimension
                }),
            },
    {
        if dt.raw <= 0 {
            return Err(OdeError::NonPositiveStep);
        }
        let d = f.model_size();
        if d == 0 {
            return Err(OdeError::ZeroDimension);
        }
        let x = zero_vec(d);
        let k1 = zero_vec(d);
        let k2 = zero_vec(d);
        let k3 = zero_vec(d);
        Ok(RK4 { f, dt, x, k1, k2, k3 })
    }

    /// The step size.
    pub fn get_dt(&self) -> (r: Fixed)
        ensures
            r == self.dt_spec(),
    {
        self.dt
    }

    /// Replaces the step size, effective from the next step on.
    /// Rejects a zero or negative step size and then changes nothing.
    pub fn set_dt(&mut self, dt: Fixed) -> (r: Result<(), OdeError>)
        requires
            old(self).wf(),
        ensures
            final(self).wf(),
            final(self).model() == old(self).model(),
            r is Err <==> dt@ <= 0,
            match r {
                Ok(()) => final(self).dt_spec() == dt,
                Err(e) => e == OdeError::NonPositiveStep && *final(self) == *old(self),
            },
    {
        if dt.raw <= 0 {
            return Err(OdeError::NonPositiveStep);
        }
        self.dt = dt;
        Ok(())
    }

    /// The model.
    pub fn core_ref(&self) -> (r: &F)
        ensures
            *r == self.model(),
    {
        &self.f
    }

    /// Advances `x` in place by exactly one step of size `dt`,
    /// evaluating the model's derivative exactly four times in the
    /// canonical stage order, with the scratch buffers reused and
    /// nothing allocated for the state itself.  When an intermediate
    /// leaves the representable range, `x` is restored to its value
    /// before the call and the step reports the overflow instead.
    pub fn iterate(&mut self, x: &mut Vec<Fixed>, t: Fixed) -> (r: Result<(), OdeError>)
        requires
            old(self).wf(),
            old(x)@.len() == old(self).model().dim_spec(),
        ensures
            final(self).wf(),
            final(self).model() == old(self).model(),
            final(self).dt_spec() == old(self).dt_spec(),
            final(x)@.len() == old(x)@.len(),
            match r {
                Ok(()) => step_ok(old(self).model(), raw_seq(old(x)@), t@, old(self).dt_spec()@)
                    && raw_seq(final(x)@) == step_spec(
                    old(self).model(),
                    raw_seq(old(x)@),
                    t@,
                    old(self).dt_spec()@,
                ),
                Err(e) => e == OdeError::Overflow && !step_ok(
                    old(self).model(),
                    raw_seq(old(x)@),
                    t@,
                    old(self).dt_spec()@,
                ) && final(x)@ == old(x)@,
            },
    {
        copy_into(&mut self.x, x);
        // Stage 1: k1 = f(x0, t) * dt.
        let d1 = match self.f.rhs(&self.x, t) {
            Ok(d) => d,
            Err(e) => {
                return Err(e);
            },
        };
        if !scale_into(&mut self.k1, &d1, self.dt) {
            return Err(OdeError::Overflow);
        }
        let t2 = match t.checked_add(self.dt.half()) {
            Some(w) => w,
            None => {
                return Err(OdeError::Overflow);
            },
        };
        // Stage 2: k2 = f(x0 + k1/2, t + dt/2) * dt.
        if !point_into(x, &self.x, &self.k1, true) {
            copy_into(x, &self.x);
            return Err(OdeError::Overflow);
        }
        let d2 = match self.f.rhs(x, t2) {
            Ok(d) => d,
            Err(e) => {
                copy_into(x, &self.x);
                return Err(e);
            },
        };
        if !scale_into(&mut self.k2, &d2, self.dt) {
            copy_into(x, &self.x);
            return Err(OdeError::Overflow);
        }
        // Stage 3: k3 = f(x0 + k2/2, t + dt/2) * dt.
        if !point_into(x, &self.x, &self.k2, true) {
            copy_into(x, &self.x);
            return Err(OdeError::Overflow);
        }
        let d3 = match self.f.rhs(x, t2) {
            Ok(d) => d,
            Err(e) => {
                copy_into(x, &self.x);
                return Err(e);
            },
        };
        if !scale_into(&mut self.k3, &d3, self.dt) {
            copy_into(x, &self.x);
            return Err(OdeError::Overflow);
        }
        // Stage 4: k4 = f(x0 + k3, t + dt) * dt, folded into the
        // final combination x0 + (k1 + 2 k2 + 2 k3 + k4) / 6.
        if !point_into(x, &self.x, &self.k3, false) {
            copy_into(x, &self.x);
            return Err(OdeError::Overflow);
        }
        let t4 = match t.checked_add(self.dt) {
            Some(w) => w,
            None => {
                copy_into(x, &self.x);
                return Err(OdeError::Overflow);
            },
        };
        let d4 = match self.f.rhs(x, t4) {
            Ok(d) => d,
            Err(e) => {
                copy_into(x, &self.x);
                return Err(e);
            },
        };
        if !combine_into(x, &self.x, &self.k1, &self.k2, &self.k3, &d4, self.dt) {
            copy_into(x, &self.x);
            return Err(OdeError::Overflow);
        }
        Ok(())
    }

    /// Calls `iterate` exactly `step_count` times starting at `t0`,
    /// incrementing the time by `dt` each call, and collects the
    /// trajectory: `step_count + 1` samples, the first of them the
    /// unmodified initial state at `t0`, the sample `k` taken at
    /// exactly `t0 + k * dt`.  On overflow the trajectory so far is
    /// abandoned and the failure is reported instead.
    #[verifier::loop_isolation(false)]
    #[verifier::rlimit(30)]
    pub fn advance(&mut self, state: &mut Vec<Fixed>, t0: Fixed, step_count: usize) -> (r: Result<
        Vec<Sample>,
        OdeError,
    >)
        requires
            old(self).wf(),
            old(state)@.len() == old(self).model().dim_spec(),
        ensures
            final(self).wf(),
            final(self).model() == old(self).model(),
            final(self).dt_spec() == old(self).dt_spec(),
            final(state)@.len() == old(state)@.len(),
            match r {
                Ok(tr) => {
                    let f = old(self).model();
                    let x0 = raw_seq(old(state)@);
                    let dt = old(self).dt_spec()@;
                    &&& adv_ok(f, x0, t0@, dt, step_count as nat)
                    &&& tr@.len() == step_count + 1
                    &&& forall|k: int| 0 <= k <= step_count ==> (#[trigger] tr@[k]).t@ == t0@ + k * dt
                    &&& forall|k: int|
                        0 <= k <= step_count ==> raw_seq((#[trigger] tr@[k]).state@) == adv_state(
                            f,
                            x0,
                            t0@,
                            dt,
                            k as nat,
                        )
                    &&& forall|k: int|
                        0 <= k <= step_count ==> (#[trigger] tr@[k]).state@.len() == old(
                            state,
                        )@.len()
                    &&& tr@[0].state@ == old(state)@
                    &&& final(state)@ == tr@[step_count as int].state@
                },
                Err(e) => {
                    let f = old(self).model();
                    let x0 = raw_seq(old(state)@);
                    let dt = old(self).dt_spec()@;
                    &&& e == OdeError::Overflow
                    &&& !adv_ok(f, x0, t0@, dt, step_count as nat)
                    &&& exists|j: nat|
                        j <= step_count as nat && raw_seq(final(state)@) == adv_state(
                            f,
                            x0,
                            t0@,
                            dt,
                            j,
                        )
                },
            },
    {
        let ghost f0 = old(self).model();
        let ghost x00 = raw_seq(old(state)@);
        let ghost dtv = old(self).dt@;
        let mut samples: Vec<Sample> = Vec::new();
        samples.push(Sample { t: t0, state: copy_vec(state) });
        let mut t = t0;
        let mut i: usize = 0;
        while i < step_count
            invariant
                self.wf(),
                self.model() == f0,
                self.dt@ == dtv,
                x00.len() == f0.dim_spec(),
                state@.len() == x00.len(),
                i <= step_count,
                t@ == t0@ + i * dtv,
                adv_ok(f0, x00, t0@, dtv, i as nat),
                raw_seq(state@) == adv_state(f0, x00, t0@, dtv, i as nat),
                samples@.len() == i + 1,
                forall|k: int| 0 <= k <= i ==> (#[trigger] samples@[k]).t@ == t0@ + k * dtv,
                forall|k: int|
                    0 <= k <= i ==> raw_seq((#[trigger] samples@[k]).state@) == adv_state(
                        f0,
                        x00,
                        t0@,
                        dtv,
                        k as nat,
                    ),
                forall|k: int| 0 <= k <= i ==> (#[trigger] samples@[k]).state@.len() == x00.len(),
                samples@[0].state@ == old(state)@,
                samples@[i as int].state@ == state@,
            decreases step_count - i,
        {
            let ghost pre = raw_seq(state@);
            match self.iterate(state, t) {
                Ok(()) => {},
                Err(e) => {
                    proof {
                        lemma_adv_fail(f0, x00, t0@, dtv, i as nat, step_count as nat);
                        assert(raw_seq(state@) == adv_state(f0, x00, t0@, dtv, i as nat));
                        assert(exists|j: nat|
                            j <= step_count as nat && raw_seq(state@) == adv_state(
                                f0,
                                x00,
                                t0@,
                                dtv,
                                j,
                            ));
                    }
                    return Err(e);
                },
            }
            proof {
                lemma_adv_state_step(f0, x00, t0@, dtv, i as nat);
            }
            let tn = match t.checked_add(self.dt) {
                Some(w) => w,
                None => {
                    proof {
                        lemma_adv_fail(f0, x00, t0@, dtv, i as nat, step_count as nat);
                        assert(raw_seq(state@) == adv_state(
                            f0,
                            x00,
                            t0@,
                            dtv,
                            (i + 1) as nat,
                        ));
                        assert(exists|j: nat|
                            j <= step_count as nat && raw_seq(state@) == adv_state(
                                f0,
                                x00,
                                t0@,
                                dtv,
                                j,
                            ));
                    }
                    return Err(OdeError::Overflow);
                },
            };
            proof {
                lemma_adv_extend(f0, x00, t0@, dtv, i as nat);
                assert(t0@ + i * dtv + dtv == t0@ + (i + 1) * dtv) by (nonlinear_arith);
            }
            t = tn;
            i = i + 1;
            samples.push(Sample { t, state: copy_vec(state) });
        }
        Ok(samples)
    }

    /// The number of scalar components in the state vectors this
    /// integrator advances.
    pub fn model_size(&self) -> (d: usize)
        ensures
            d == self.model().dim_spec(),
    {
        self.f.model_size()
    }
}

/// Copies `src` over `dst`, component by component.
fn copy_into(dst: &mut Vec<Fixed>, src: &Vec<Fixed>)
    requires
        old(dst)@.len() == src@.len(),
    ensures
        final(dst)@ == src@,
{
    let mut i: usize = 0;
    while i < src.len()
        invariant
            i <= src@.len(),
            dst@.len() == src@.len(),
            forall|j: int| 0 <= j < i ==> dst@[j] == src@[j],
        decreases src@.len() - i,
    {
        dst.set(i, src[i]);
        i = i + 1;
    }
    proof {
        assert(dst@ =~= src@);
    }
}

/// Fills `dst` with `d` scaled by `dt`, component by component,
/// reporting whether every product stayed representable.
fn scale_into(dst: &mut Vec<Fixed>, d: &Vec<Fixed>, dt: Fixed) -> (ok: bool)
    requires
        old(dst)@.len() == d@.len(),
    ensures
        final(dst)@.len() == d@.len(),
        ok == seq_mul_ok(raw_seq(d@), dt@),
        ok ==> raw_seq(final(dst)@) == seq_mul(raw_seq(d@), dt@),
{
    let mut i: usize = 0;
    while i < d.len()
        invariant
            i <= d@.len(),
            dst@.len() == d@.len(),
            forall|j: int| 0 <= j < i ==> fits_i64(#[trigger] mul_raw(raw_seq(d@)[j], dt@)),
            forall|j: int| 0 <= j < i ==> (#[trigger] dst@[j])@ == mul_raw(raw_seq(d@)[j], dt@),
        decreases d@.len() - i,
    {
        match d[i].checked_mul(dt) {
            Some(v) => {
                dst.set(i, v);
            },
            None => {
                proof {
                    assert(!fits_i64(mul_raw(raw_seq(d@)[i as int], dt@)));
                }
                return false;
            },
        }
        i = i + 1;
    }
    proof {
        assert(raw_seq(dst@) =~= seq_mul(raw_seq(d@), dt@));
    }
    true
}

/// Fills `x` with the stage evaluation point `x0 + k` (or
/// `x0 + k/2` when `halve` is set), component by component,
/// reporting whether every sum stayed representable.
fn point_into(x: &mut Vec<Fixed>, x0: &Vec<Fixed>, k: &Vec<Fixed>, halve: bool) -> (ok: bool)
    requires
        old(x)@.len() == x0@.len(),
        k@.len() == x0@.len(),
    ensures
        final(x)@.len() == x0@.len(),
        ({
            let kk = if halve {
                seq_div(raw_seq(k@), 2)
            } else {
                raw_seq(k@)
            };
            ok == seq_add_ok(raw_seq(x0@), kk) && (ok ==> raw_seq(final(x)@) == seq_add(
                raw_seq(x0@),
                kk,
            ))
        }),
{
    let ghost kk = if halve {
        seq_div(raw_seq(k@), 2)
    } else {
        raw_seq(k@)
    };
    let mut i: usize = 0;
    while i < x0.len()
        invariant
            i <= x0@.len(),
            x@.len() == x0@.len(),
            k@.len() == x0@.len(),
            kk == (if halve {
                seq_div(raw_seq(k@), 2)
            } else {
                raw_seq(k@)
            }),
            forall|j: int| 0 <= j < i ==> fits_i64(raw_seq(x0@)[j] + kk[j]),
            forall|j: int| 0 <= j < i ==> (#[trigger] x@[j])@ == raw_seq(x0@)[j] + kk[j],
        decreases x0@.len() - i,
    {
        let kv = if halve {
            k[i].half()
        } else {
            k[i]
        };
        proof {
            assert(kv@ == kk[i as int]);
        }
        match x0[i].checked_add(kv) {
            Some(v) => {
                x.set(i, v);
            },
            None => {
                proof {
                    assert(!fits_i64(raw_seq(x0@)[i as int] + kk[i as int]));
                }
                return false;
            },
        }
        i = i + 1;
    }
    proof {
        assert(raw_seq(x@) =~= seq_add(raw_seq(x0@), kk));
    }
    true
}

/// Fills `x` with the final combination
/// `x0 + (k1 + 2 k2 + 2 k3 + d4 * dt) / 6`, component by component,
/// reporting whether everything stayed representable.
fn combine_into(
    x: &mut Vec<Fixed>,
    x0: &Vec<Fixed>,
    k1: &Vec<Fixed>,
    k2: &Vec<Fixed>,
    k3: &Vec<Fixed>,
    d4: &Vec<Fixed>,
    dt: Fixed,
) -> (ok: bool)
    requires
        old(x)@.len() == x0@.len(),
        k1@.len() == x0@.len(),
        k2@.len() == x0@.len(),
        k3@.len() == x0@.len(),
        d4@.len() == x0@.len(),
    ensures
        final(x)@.len() == x0@.len(),
        ({
            let k4 = seq_mul(raw_seq(d4@), dt@);
            ok == (seq_mul_ok(raw_seq(d4@), dt@) && comb_ok(
                raw_seq(x0@),
                raw_seq(k1@),
                raw_seq(k2@),
                raw_seq(k3@),
                k4,
            )) && (ok ==> raw_seq(final(x)@) == comb(
                raw_seq(x0@),
                raw_seq(k1@),
                raw_seq(k2@),
                raw_seq(k3@),
                k4,
            ))
        }),
{
    let ghost k4 = seq_mul(raw_seq(d4@), dt@);
    let mut i: usize = 0;
    while i < x0.len()
        invariant
            i <= x0@.len(),
            x@.len() == x0@.len(),
            k1@.len() == x0@.len(),
            k2@.len() == x0@.len(),
            k3@.len() == x0@.len(),
            d4@.len() == x0@.len(),
            k4 == seq_mul(raw_seq(d4@), dt@),
            forall|j: int| 0 <= j < i ==> fits_i64(#[trigger] mul_raw(raw_seq(d4@)[j], dt@)),
            forall|j: int|
                0 <= j < i ==> #[trigger] comb_ok_at(
                    raw_seq(x0@)[j],
                    raw_seq(k1@)[j],
                    raw_seq(k2@)[j],
                    raw_seq(k3@)[j],
                    k4[j],
                ),
            forall|j: int|
                0 <= j < i ==> (#[trigger] x@[j])@ == comb_at(
                    raw_seq(x0@)[j],
                    raw_seq(k1@)[j],
                    raw_seq(k2@)[j],
                    raw_seq(k3@)[j],
                    k4[j],
                ),
        decreases x0@.len() - i,
    {
        let k4i = match d4[i].checked_mul(dt) {
            Some(v) => v,
            None => {
                proof {
                    assert(!fits_i64(mul_raw(raw_seq(d4@)[i as int], dt@)));
                }
                return false;
            },
        };
        let a = match k2[i].checked_add(k2[i]) {
            Some(v) => v,
            None => {
                proof {
                    assert(!comb_ok_at(
                        raw_seq(x0@)[i as int],
                        raw_seq(k1@)[i as int],
                        raw_seq(k2@)[i as int],
                        raw_seq(k3@)[i as int],
                        k4[i as int],
                    ));
                }
                return false;
            },
        };
        let b = match k3[i].checked_add(k3[i]) {
            Some(v) => v,
            None => {
                proof {
                    assert(!comb_ok_at(
                        raw_seq(x0@)[i as int],
                        raw_seq(k1@)[i as int],
                        raw_seq(k2@)[i as int],
                        raw_seq(k3@)[i as int],
                        k4[i as int],
                    ));
                }
                return false;
            },
        };
        let s1 = match k1[i].checked_add(a) {
            Some(v) => v,
            None => {
                proof {
                    assert(!comb_ok_at(
                        raw_seq(x0@)[i as int],
                        raw_seq(k1@)[i as int],
                        raw_seq(k2@)[i as int],
                        raw_seq(k3@)[i as int],
                        k4[i as int],
                    ));
                }
                return false;
            },
        };
        let s2 = match s1.checked_add(b) {
            Some(v) => v,
            None => {
                proof {
                    assert(!comb_ok_at(
                        raw_seq(x0@)[i as int],
                        raw_seq(k1@)[i as int],
                        raw_seq(k2@)[i as int],
                        raw_seq(k3@)[i as int],
                        k4[i as int],
                    ));
                }
                return false;
            },
        };
        let s3 = match s2.checked_add(k4i) {
            Some(v) => v,
            None => {
                proof {
                    assert(!comb_ok_at(
                        raw_seq(x0@)[i as int],
                        raw_seq(k1@)[i as int],
                        raw_seq(k2@)[i as int],
                        raw_seq(k3@)[i as int],
                        k4[i as int],
                    ));
                }
                return false;
            },
        };
        let inc = s3.div_by(6);
        let xi = match x0[i].checked_add(inc) {
            Some(v) => v,
            None => {
                proof {
                    assert(!comb_ok_at(
                        raw_seq(x0@)[i as int],
                        raw_seq(k1@)[i as int],
                        raw_seq(k2@)[i as int],
                        raw_seq(k3@)[i as int],
                        k4[i as int],
                    ));
                }
                return false;
            },
        };
        x.set(i, xi);
        i = i + 1;
    }
    proof {
        assert(raw_seq(x@) =~= comb(raw_seq(x0@), raw_seq(k1@), raw_seq(k2@), raw_seq(k3@), k4));
    }
    true
}

/// A vector of `n` fixed-point zeros.
fn zero_vec(n: usize) -> (r: Vec<Fixed>)
    ensures
        r@.len() == n,
        forall|i: int| 0 <= i < n ==> r@[i]@ == 0,
{
    let mut r: Vec<Fixed> = Vec::new();
    let mut i: usize = 0;
    while i < n
        invariant
            i <= n,
            r@.len() == i,
            forall|j: int| 0 <= j < i ==> r@[j]@ == 0,
        decreases n - i,
    {
        r.push(Fixed::zero());
        i = i + 1;
    }
    r
}

/// A copy of a vector of scalars.
fn copy_vec(src: &Vec<Fixed>) -> (r: Vec<Fixed>)
    ensures
        r@ == src@,
{
    let mut r: Vec<Fixed> = Vec::new();
    let mut i: usize = 0;
    while i < src.len()
        invariant
            i <= src@.len(),
            r@ =~= src@.take(i as int),
        decreases src@.len() - i,
    {
        r.push(src[i]);
        i = i + 1;
    }
    proof {
        assert(r@ =~= src@);
    }
    r
}

} // verus!
