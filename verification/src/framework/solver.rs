//! The [`Solver`] trait every concrete solver implements.

use vstd::prelude::*;

use crate::framework::state::State;
use crate::framework::termination::TerminationReason;

verus! {

/// A concrete optimization algorithm. Implementations carry the solver's
/// configuration and any internal scratch state; the iterate itself lives
/// in `S: State`.
///
/// # Contract
///
/// - **Caller must:** drive the solver through
///   [`Executor`](crate::framework::executor::Executor) (or
///   [`run_loop`](crate::framework::executor::run_loop)). The executor calls
///   [`init`](Self::init) exactly once before any
///   [`next_iter`](Self::next_iter) call, and runs termination checks
///   before each iteration including iter 0.
/// - **Implementor must:** leave the iteration counter to the executor:
///   the state returned by [`init`](Self::init) and
///   [`next_iter`](Self::next_iter) has the counter of the state handed in,
///   so that `State::iter` always counts the *fully completed* iterations.
/// - **Implementor must:** state what each method may do through
///   [`may_init`](Self::may_init), [`may_advance`](Self::may_advance) and
///   [`may_terminate`](Self::may_terminate); the executor's contracts say
///   what it does with the answers in terms of these. An implementation
///   written outside Verus supplies each as an ordinary method.
/// - **Implementor must:** report mid-iteration failures through
///   [`next_iter`](Self::next_iter)'s `Option<TerminationReason>` rather than
///   panicking, and use [`terminate`](Self::terminate) only for clean
///   convergence tests on the current state.
pub trait Solver<P, S: State> {
    /// Whether [`init`](Self::init), run from this configuration on
    /// `problem`, may turn `state` into `after` and leave the solver as
    /// `solver_after`.
    spec fn may_init(&self, problem: &P, state: S, after: S, solver_after: &Self) -> bool;

    /// Whether [`next_iter`](Self::next_iter), run from this configuration
    /// on `problem`, may turn `state` into `after`, report `reason` and
    /// leave the solver as `solver_after`.
    spec fn may_advance(
        &self,
        problem: &P,
        state: S,
        after: S,
        reason: Option<TerminationReason>,
        solver_after: &Self,
    ) -> bool;

    /// Whether [`terminate`](Self::terminate) may answer `r` on `state`.
    spec fn may_terminate(&self, state: &S, r: Option<TerminationReason>) -> bool;

    /// One-time setup before the iteration loop: seed every state field
    /// the termination criteria read at iter 0. A solver with nothing to
    /// set up returns `state` as it came.
    fn init(&mut self, problem: &P, state: S) -> (r: S)
        ensures
            r.spec_iter() == state.spec_iter(),
            old(self).may_init(problem, state, r, &*final(self)),
    ;

    /// Advance one iteration. A `Some(reason)` in the second slot halts
    /// the executor without counting the iteration.
    fn next_iter(&mut self, problem: &P, state: S) -> (r: (S, Option<TerminationReason>))
        ensures
            r.0.spec_iter() == state.spec_iter(),
            old(self).may_advance(problem, state, r.0, r.1, &*final(self)),
    ;

    /// Pre-iteration solver-specific termination test, called after the
    /// framework criteria. A solver without such a test answers `None`.
    fn terminate(&self, state: &S) -> (r: Option<TerminationReason>)
        ensures
            self.may_terminate(state, r),
    ;
}

} // verus!
