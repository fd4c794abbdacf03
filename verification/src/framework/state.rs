//! The state shape solvers iterate over.
//!
//! A state owns the current iterate plus the bookkeeping the framework
//! reads: the number of completed iterations and the evaluation counters.
//! Concrete states (with a floating-point cost) live with the solvers that
//! produce them; the framework only relies on the counters described here.

use vstd::prelude::*;

verus! {

/// A solver's iterate plus the counters the executor and the termination
/// criteria read.
///
/// # Contract
///
/// - **Implementor must:** report through each reader ([`iter`](Self::iter),
///   [`cost_evals`](Self::cost_evals), [`param`](Self::param),
///   [`cost`](Self::cost)) the value of the matching `spec_` function. An
///   implementation written outside Verus supplies each `spec_` function
///   as an ordinary method returning what its reader returns.
/// - **Implementor must:** make [`increment_iter`](Self::increment_iter) add
///   exactly one to the iteration counter and leave the iterate, its cost
///   and the cost-evaluation counter alone (and [`increment_cost_evals`](Self::increment_cost_evals)
///   the other way round).
pub trait State {
    /// The parameter type of the iterate.
    type Param;
    /// The scalar cost type.
    type Float;

    /// Number of completed iterations.
    spec fn spec_iter(&self) -> u64;

    /// Number of cost-function evaluations spent so far.
    spec fn spec_cost_evals(&self) -> u64;

    /// The current iterate.
    spec fn spec_param(&self) -> &Self::Param;

    /// The cost at the current iterate.
    spec fn spec_cost(&self) -> Self::Float;

    /// Number of completed iterations.
    fn iter(&self) -> (r: u64)
        ensures
            r == self.spec_iter(),
    ;

    /// Whether `after` is this state with one more completed iteration
    /// counted, as [`increment_iter`](Self::increment_iter) leaves it.
    spec fn spec_counted(&self, after: &Self) -> bool;

    /// Count one more completed iteration.
    fn increment_iter(&mut self)
        requires
            old(self).spec_iter() < u64::MAX,
        ensures
            final(self).spec_iter() == old(self).spec_iter() + 1,
            final(self).spec_cost_evals() == old(self).spec_cost_evals(),
            final(self).spec_param() == old(self).spec_param(),
            final(self).spec_cost() == old(self).spec_cost(),
            old(self).spec_counted(&*final(self)),
    ;

    /// The current iterate.
    fn param(&self) -> (r: &Self::Param)
        ensures
            r == self.spec_param(),
    ;

    /// The cost at the current iterate.
    fn cost(&self) -> (r: Self::Float)
        ensures
            r == self.spec_cost(),
    ;

    /// Number of cost-function evaluations spent so far.
    fn cost_evals(&self) -> (r: u64)
        ensures
            r == self.spec_cost_evals(),
    ;

    /// Add `n` evaluations to the cost counter (used when a composed
    /// solver rolls an inner run's work into the outer state).
    fn increment_cost_evals(&mut self, n: u64)
        requires
            old(self).spec_cost_evals() + n <= u64::MAX,
        ensures
            final(self).spec_cost_evals() == old(self).spec_cost_evals() + n,
            final(self).spec_iter() == old(self).spec_iter(),
    ;
}

/// States that carry a gradient at the current `param`.
///
/// `gradient()` returns `None` when no gradient is available at this
/// iterate yet (e.g. before [`Solver::init`](crate::framework::solver::Solver::init)
/// has run).
pub trait GradientState: State {
    /// Number of gradient evaluations spent so far.
    spec fn spec_gradient_evals(&self) -> u64;

    /// The gradient at the current iterate, if one has been computed.
    fn gradient(&self) -> Option<&Self::Param>;

    /// Number of gradient evaluations spent so far.
    fn gradient_evals(&self) -> (r: u64)
        ensures
            r == self.spec_gradient_evals(),
    ;
}

} // verus!
