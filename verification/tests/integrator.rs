//! The integrator against the oscillator model: construction
//! validation, exact stepping, trajectory shape, numerical behavior.

use rk4_ode::fixed::Fixed;
use rk4_ode::model::Explicit;
use rk4_ode::msd::MassSpringDamper;
use rk4_ode::rk4::RK4;
use rk4_ode::OdeError;

const SCALE: i64 = 4294967296;

fn fx(i: i64) -> Fixed {
    Fixed::from_int(i).unwrap()
}

fn to_f64(f: Fixed) -> f64 {
    f.raw as f64 / SCALE as f64
}

fn model(k: i64, c: i64, m: i64, x0: i64, v0: i64) -> MassSpringDamper {
    MassSpringDamper::new(fx(k), fx(c), fx(m), fx(x0), fx(v0), 1000, Fixed::from_ratio(1, 100).unwrap())
}

#[test]
fn construction_rejects_non_positive_dt() {
    let md = model(1, 1, 1, 0, 1);
    assert_eq!(
        RK4::new(md, Fixed::zero()).err(),
        Some(OdeError::NonPositiveStep)
    );
    assert_eq!(
        RK4::new(md, Fixed::from_ratio(-1, 100).unwrap()).err(),
        Some(OdeError::NonPositiveStep)
    );
    assert!(RK4::new(md, Fixed::from_ratio(1, 100).unwrap()).is_ok());
}

#[test]
fn set_dt_rejects_non_positive() {
    let md = model(1, 1, 1, 0, 1);
    let mut solver = RK4::new(md, fx(1)).unwrap();
    assert_eq!(solver.set_dt(Fixed::zero()).err(), Some(OdeError::NonPositiveStep));
    assert_eq!(solver.get_dt().raw, SCALE);
    assert!(solver.set_dt(Fixed::from_ratio(1, 2).unwrap()).is_ok());
    assert_eq!(solver.get_dt().raw, SCALE / 2);
}

#[test]
fn accessors_report_the_model() {
    let md = model(2, 3, 4, 0, 1);
    let mut solver = RK4::new(md, fx(1)).unwrap();
    assert_eq!(solver.model_size(), 2);
    assert_eq!(*solver.core_ref(), md);
    let mut state = md.initial_state();
    assert_eq!(state.len(), 2);
    assert_eq!(state[0].raw, 0);
    assert_eq!(state[1].raw, SCALE);
    assert!(solver.iterate(&mut state, Fixed::zero()).is_ok());
}

#[test]
fn derivative_is_the_oscillator_formula() {
    // k = 2, c = 3, m = 2, x = 1, v = 2:
    // acceleration = (-3 * 2 - 2 * 1) / 2 = -4, exactly.
    let md = model(2, 3, 2, 0, 0);
    let state = vec![fx(1), fx(2)];
    let d = md.rhs(&state, Fixed::zero()).unwrap();
    assert_eq!(d.len(), 2);
    assert_eq!(d[0].raw, 2 * SCALE);
    assert_eq!(d[1].raw, -4 * SCALE);
}

#[test]
fn free_drift_step_is_exact() {
    // With k = 0 and c = 0 the derivative is constant [v, 0]: every
    // stage agrees, and one step moves the position by exactly
    // v * dt while the velocity stays put.
    let md = model(0, 0, 1, 0, 1);
    let dt = Fixed::from_ratio(1, 4).unwrap();
    let mut solver = RK4::new(md, dt).unwrap();
    let mut state = md.initial_state();
    solver.iterate(&mut state, Fixed::zero()).unwrap();
    assert_eq!(state[0].raw, SCALE / 4);
    assert_eq!(state[1].raw, SCALE);
    solver.iterate(&mut state, dt).unwrap();
    assert_eq!(state[0].raw, SCALE / 2);
    assert_eq!(state[1].raw, SCALE);
}

#[test]
fn damped_step_matches_the_stage_formulas() {
    // k = c = m = 1, x0 = 0, v0 = 1, dt = 0.01: working the four
    // stages out by hand gives x1 = 0.009950000416666...,
    // v1 = 0.99000016625.  The scalar's grid is 2^-32, so the
    // integrator must land within a handful of grid units of that.
    let md = model(1, 1, 1, 0, 1);
    let dt = Fixed::from_ratio(1, 100).unwrap();
    let mut solver = RK4::new(md, dt).unwrap();
    let mut state = md.initial_state();
    solver.iterate(&mut state, Fixed::zero()).unwrap();
    assert!((to_f64(state[0]) - 0.009950000416666667).abs() < 1.0e-6);
    assert!((to_f64(state[1]) - 0.99000016625).abs() < 1.0e-6);
}

#[test]
fn rest_state_stays_exactly_at_rest() {
    // Zero initial conditions with zero forcing: a fixed point for
    // any parameters.
    let md = model(5, 3, 2, 0, 0);
    let mut solver = RK4::new(md, Fixed::from_ratio(1, 100).unwrap()).unwrap();
    let mut state = md.initial_state();
    let tr = solver.advance(&mut state, Fixed::zero(), 50).unwrap();
    assert_eq!(tr.len(), 51);
    for smp in &tr {
        assert_eq!(smp.state[0].raw, 0);
        assert_eq!(smp.state[1].raw, 0);
    }
    assert_eq!(state[0].raw, 0);
    assert_eq!(state[1].raw, 0);
}

#[test]
fn trajectory_has_one_sample_per_step_plus_initial() {
    let md = model(1, 1, 1, 0, 1);
    let dt = Fixed::from_ratio(1, 100).unwrap();
    let mut solver = RK4::new(md, dt).unwrap();
    let mut state = md.initial_state();
    let tr = solver.advance(&mut state, Fixed::zero(), 10).unwrap();
    assert_eq!(tr.len(), 11);
    // Sample 0 is the unmodified initial state.
    assert_eq!(tr[0].t.raw, 0);
    assert_eq!(tr[0].state[0].raw, 0);
    assert_eq!(tr[0].state[1].raw, SCALE);
    // Sample k is taken at exactly k * dt: time accumulates without
    // drift.
    for (k, smp) in tr.iter().enumerate() {
        assert_eq!(smp.t.raw, k as i64 * dt.raw);
    }
    // The final state is the last sample.
    assert_eq!(state[0].raw, tr[10].state[0].raw);
    assert_eq!(state[1].raw, tr[10].state[1].raw);
}

#[test]
fn overflow_is_reported_and_state_restored() {
    // An enormous spring constant on an enormous displacement
    // overflows the scalar inside the step.
    let md = MassSpringDamper::new(
        Fixed { raw: i64::MAX },
        Fixed::zero(),
        fx(1),
        Fixed { raw: i64::MAX },
        fx(0),
        1,
        fx(1),
    );
    let mut solver = RK4::new(md, fx(1)).unwrap();
    let mut state = md.initial_state();
    let before = (state[0].raw, state[1].raw);
    assert_eq!(
        solver.iterate(&mut state, Fixed::zero()).err(),
        Some(OdeError::Overflow)
    );
    assert_eq!((state[0].raw, state[1].raw), before);
    let mut state2 = md.initial_state();
    assert_eq!(
        solver.advance(&mut state2, Fixed::zero(), 5).err(),
        Some(OdeError::Overflow)
    );
}

#[test]
fn undamped_energy_stays_bounded() {
    // k = m = 1, c = 0, x0 = 0, v0 = 1: mechanical energy
    // (v^2 + x^2) / 2 starts at 1/2 and must only drift within a
    // small bound over 1000 steps of 0.01.
    let md = model(1, 0, 1, 0, 1);
    let mut solver = RK4::new(md, Fixed::from_ratio(1, 100).unwrap()).unwrap();
    let mut state = md.initial_state();
    let tr = solver.advance(&mut state, Fixed::zero(), 1000).unwrap();
    for smp in &tr {
        let x = to_f64(smp.state[0]);
        let v = to_f64(smp.state[1]);
        let energy = 0.5 * (v * v + x * x);
        assert!((energy - 0.5).abs() < 1.0e-3, "energy drifted to {energy}");
    }
}

#[test]
fn undamped_quarter_period_reaches_the_turning_point() {
    // k = m = 1, c = 0, x0 = 0, v0 = 1: the exact solution is
    // x(t) = sin t, so near t = pi/2 the position approaches 1 and
    // the velocity approaches 0.
    let md = model(1, 0, 1, 0, 1);
    let dt = Fixed::from_ratio(1, 10000).unwrap();
    let mut solver = RK4::new(md, dt).unwrap();
    let mut state = md.initial_state();
    let steps = 15708;
    let tr = solver.advance(&mut state, Fixed::zero(), steps).unwrap();
    let t_end = to_f64(tr[steps].t);
    assert!((t_end - std::f64::consts::FRAC_PI_2).abs() < 1.0e-3);
    let x = to_f64(state[0]);
    let v = to_f64(state[1]);
    assert!((x - 1.0).abs() < 1.0e-3, "position {x}");
    assert!(v.abs() < 1.0e-3, "velocity {v}");
}

// How far two steps of `den`-ths halved disagree with one step of
// `1/den` over the same interval, for the undamped oscillator from
// x0 = 1, v0 = 0.
fn richardson_difference(den: i64) -> f64 {
    let md = model(1, 0, 1, 1, 0);

    let full = Fixed::from_ratio(1, den).unwrap();
    let mut coarse = RK4::new(md, full).unwrap();
    let mut state1 = md.initial_state();
    coarse.advance(&mut state1, Fixed::zero(), 1).unwrap();

    let half = Fixed::from_ratio(1, 2 * den).unwrap();
    let mut fine = RK4::new(md, half).unwrap();
    let mut state2 = md.initial_state();
    fine.advance(&mut state2, Fixed::zero(), 2).unwrap();

    (to_f64(state1[0]) - to_f64(state2[0])).abs()
}

#[test]
fn halving_the_step_converges_at_fourth_order() {
    // Two steps with dt halved approximate one step with the
    // original dt, and for a fourth-order scheme the disagreement
    // must shrink at least sixteen-fold when dt itself is halved.
    let coarse = richardson_difference(2);
    let fine = richardson_difference(4);
    assert!(coarse < 1.0e-3, "coarse difference {coarse}");
    assert!(fine < coarse / 16.0, "differences {coarse} vs {fine}");
}
