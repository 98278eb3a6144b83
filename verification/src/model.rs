//! The model interface: a physical system expressed as a first-order
//! ordinary differential equation `dx/dt = f(x, t)` in vector form.
//!
//! An integrator works against this interface alone, so any
//! finite-dimensional first-order system can be plugged in without
//! touching the stepping scheme.

use vstd::prelude::*;

use crate::fixed::Fixed;
use crate::OdeError;

verus! {

/// The raw representations of a vector of fixed-point scalars.
pub open spec fn raw_seq(s: Seq<Fixed>) -> Seq<int> {
    Seq::new(s.len(), |i: int| s[i]@)
}

/// A first-order ODE system with a fixed, positive number of scalar
/// degrees of freedom and an explicit right-hand side.
///
/// The derivative is pure: it depends on the state and the time
/// alone, never on call history.
pub trait Explicit: Sized {
    /// Number of scalar components in the state vector.
    spec fn dim_spec(&self) -> nat;

    /// Whether the whole derivative computation at this state and
    /// time stays inside the representable range of the scalar.
    spec fn deriv_ok(&self, s: Seq<int>, t: int) -> bool;

    /// The raw derivative vector at this state and time.
    spec fn deriv_spec(&self, s: Seq<int>, t: int) -> Seq<int>;

    /// The derivative of a well-formed state has one component per
    /// degree of freedom.
    proof fn deriv_spec_len(&self, s: Seq<int>, t: int)
        requires
            s.len() == self.dim_spec(),
        ensures
            self.deriv_spec(s, t).len() == self.dim_spec(),
    ;

    /// The fixed number of scalar components in the state vector.
    fn model_size(&self) -> (d: usize)
        ensures
            d == self.dim_spec(),
    ;

    /// The instantaneous rate of change of every component, or the
    /// report that some intermediate left the representable range.
    fn rhs(&self, state: &Vec<Fixed>, t: Fixed) -> (r: Result<Vec<Fixed>, OdeError>)
        requires
            state@.len() == self.dim_spec(),
        ensures
            match r {
                Ok(d) => self.deriv_ok(raw_seq(state@), t@) && d@.len() == state@.len() && raw_seq(
                    d@,
                ) == self.deriv_spec(raw_seq(state@), t@),
                Err(e) => !self.deriv_ok(raw_seq(state@), t@) && e == OdeError::Overflow,
            },
    ;
}

} // verus!
