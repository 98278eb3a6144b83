//! Fixed-step explicit Runge-Kutta time integration over an exact
//! fixed-point scalar, with a damped spring-mass oscillator as the
//! concrete model.

pub mod fixed;
pub mod model;
pub mod msd;
pub mod rk4;
pub mod config;
pub mod csv;

use vstd::prelude::*;

verus! {

/// Everything that can go wrong while configuring or running an
/// integration.  All failures are detected eagerly; no operation
/// panics.
#[derive(Clone, Copy, Debug, PartialEq, Eq, Structural)]
pub enum OdeError {
    /// The step size handed to the integrator was zero or negative.
    NonPositiveStep,
    /// The model reports a state space with no degrees of freedom.
    ZeroDimension,
    /// An intermediate value left the representable range of the
    /// fixed-point scalar.  This is the analogue of floating-point
    /// non-finiteness: it is reported, never silently clamped.
    Overflow,
}

} // verus!
