//! Termination layer: why a run stopped, the pluggable
//! [`TerminationCriterion`] trait, and the built-in budget criteria.

use vstd::prelude::*;

use crate::framework::state::{GradientState, State};

verus! {

/// Why the executor stopped.
#[derive(Debug, Clone, Copy, PartialEq, Eq, Structural)]
pub enum TerminationReason {
    /// The iteration budget was reached.
    MaxIter,
    /// The cost-evaluation budget was reached.
    MaxCostEvals,
    /// The gradient-evaluation budget was reached.
    MaxGradientEvals,
    /// The gradient norm dropped below its tolerance.
    GradientTolerance,
    /// Successive iterates moved less than the tolerance.
    ParamTolerance,
    /// Successive iterates moved less than the tolerance, relative to
    /// the iterate's size.
    RelativeParamTolerance,
    /// Successive costs changed less than the tolerance.
    CostTolerance,
    /// Successive costs changed less than the tolerance, relative to the
    /// cost's size.
    RelativeCostTolerance,
    /// The simplex collapsed below its tolerances.
    SimplexTolerance,
    /// The wall-clock budget was reached.
    MaxTime,
    /// Solver determined it has converged (e.g. fixed point reached).
    SolverConverged,
    /// Solver cannot make further progress (e.g. line search failure).
    SolverFailed,
}

/// A pluggable termination check evaluated by the executor.
///
/// # Contract
///
/// - Criteria are registered with
///   [`Executor::terminate_on`](crate::framework::executor::Executor::terminate_on)
///   and checked in insertion order before each iteration (including
///   iter 0); the **first to return `Some(_)` halts the run**.
/// - **Implementor must:** treat [`check`](Self::check) as side-effect free
///   with respect to the optimization; history a criterion needs lives in
///   the criterion itself.
/// - [`may_report`](Self::may_report) describes which answers a check may
///   give on a state. It is `true` (no claim) unless an implementation
///   states it exactly, as the built-in criteria of this module do.
pub trait TerminationCriterion<S> {
    /// Whether `check` may answer `r` when run on `state` from this
    /// criterion's current configuration.
    open spec fn may_report(&self, state: &S, r: Option<TerminationReason>) -> bool {
        true
    }

    /// Inspect the current state and return `Some(reason)` to halt the
    /// run, or `None` to continue.
    fn check(&mut self, state: &S) -> (r: Option<TerminationReason>)
        ensures
            old(self).may_report(state, r),
    ;
}

/// Stop after `state.iter() >= n` iterations.
pub struct MaxIter(pub u64);

impl<S: State> TerminationCriterion<S> for MaxIter {
    open spec fn may_report(&self, state: &S, r: Option<TerminationReason>) -> bool {
        r == if state.spec_iter() >= self.0 {
            Some(TerminationReason::MaxIter)
        } else {
            None
        }
    }

    fn check(&mut self, state: &S) -> (r: Option<TerminationReason>)
        ensures
            *final(self) == *old(self),
    {
        if state.iter() >= self.0 {
            Some(TerminationReason::MaxIter)
        } else {
            None
        }
    }
}

/// Stop after `state.cost_evals() >= n` cost-function evaluations — the
/// budget that matters when one iteration can spend many evaluations
/// (line search, simplex shrink).
pub struct MaxCostEvals(pub u64);

impl<S: State> TerminationCriterion<S> for MaxCostEvals {
    open spec fn may_report(&self, state: &S, r: Option<TerminationReason>) -> bool {
        r == if state.spec_cost_evals() >= self.0 {
            Some(TerminationReason::MaxCostEvals)
        } else {
            None
        }
    }

    fn check(&mut self, state: &S) -> (r: Option<TerminationReason>)
        ensures
            *final(self) == *old(self),
    {
        if state.cost_evals() >= self.0 {
            Some(TerminationReason::MaxCostEvals)
        } else {
            None
        }
    }
}

/// Stop after `state.gradient_evals() >= n` gradient evaluations. Bound on
/// `S: GradientState`, so pairing it with a derivative-free solver is a
/// compile error rather than a silently inert criterion.
pub struct MaxGradientEvals(pub u64);

impl<S: GradientState> TerminationCriterion<S> for MaxGradientEvals {
    open spec fn may_report(&self, state: &S, r: Option<TerminationReason>) -> bool {
        r == if state.spec_gradient_evals() >= self.0 {
            Some(TerminationReason::MaxGradientEvals)
        } else {
            None
        }
    }

    fn check(&mut self, state: &S) -> (r: Option<TerminationReason>)
        ensures
            *final(self) == *old(self),
    {
        if state.gradient_evals() >= self.0 {
            Some(TerminationReason::MaxGradientEvals)
        } else {
            None
        }
    }
}

/// `web_time::Instant`, the clock reading [`MaxTime`] keeps.
#[verifier::external_type_specification]
#[verifier::external_body]
pub struct ExInstant(web_time::Instant);

/// Calls `web_time::Instant::now`. Nothing is claimed of the reading: it
/// depends on the clock.
#[verifier::external_body]
fn instant_now() -> (r: web_time::Instant) {
    web_time::Instant::now()
}

/// Calls `web_time::Instant::elapsed` on `start`. Nothing is claimed of
/// the result: it depends on the clock.
#[verifier::external_body]
fn instant_elapsed(start: &web_time::Instant) -> (r: web_time::Duration) {
    start.elapsed()
}

/// Calls `std::time::Duration::as_nanos`: the whole duration in
/// nanoseconds (exact; `u128` holds every duration). Only a clock reading
/// goes through it, and a `Duration` is not a plain value a name could be
/// given over, so nothing is claimed of the count.
#[verifier::external_body]
fn duration_nanos(d: &web_time::Duration) -> (r: u128) {
    d.as_nanos()
}

/// The verdict of a wall-clock budget of `limit_nanos` nanoseconds after
/// `elapsed_nanos` have elapsed: [`TerminationReason::MaxTime`] once the
/// budget is used up, nothing before.
pub fn time_limit_verdict(elapsed_nanos: u128, limit_nanos: u128) -> (r: Option<TerminationReason>)
    ensures
        r == time_limit_verdict_spec(elapsed_nanos, limit_nanos),
        elapsed_nanos < limit_nanos ==> r is None,
        elapsed_nanos >= limit_nanos ==> r == Some(TerminationReason::MaxTime),
{
    if elapsed_nanos >= limit_nanos {
        Some(TerminationReason::MaxTime)
    } else {
        None
    }
}

/// Stop once a wall-clock budget of `limit_nanos` nanoseconds has elapsed
/// since the first `check` (for a `Duration` budget `d`, pass
/// `d.as_nanos()`).
///
/// The clock starts on the first `check`, so a criterion reused across
/// runs keeps its first start time.
pub struct MaxTime {
    limit_nanos: u128,
    start: Option<web_time::Instant>,
    last_elapsed: Ghost<u128>,
}

impl MaxTime {
    /// A criterion that fires once `limit_nanos` nanoseconds have elapsed
    /// since its first check. The clock has not started yet.
    pub fn new(limit_nanos: u128) -> (r: Self)
        ensures
            r.limit_nanos() == limit_nanos,
            !r.started(),
    {
        Self { limit_nanos, start: None, last_elapsed: Ghost(0) }
    }

    /// The configured budget in nanoseconds.
    pub closed spec fn limit_nanos(&self) -> u128 {
        self.limit_nanos
    }

    /// Whether the clock has started (the criterion has been checked).
    pub closed spec fn started(&self) -> bool {
        self.start is Some
    }

    /// The clock reading taken on the first check.
    pub closed spec fn start_reading(&self) -> web_time::Instant {
        self.start->0
    }

    /// The time elapsed since the start, in nanoseconds, as read by the
    /// latest check.
    pub closed spec fn last_elapsed(&self) -> u128 {
        self.last_elapsed@
    }
}

impl<S> TerminationCriterion<S> for MaxTime {
    open spec fn may_report(&self, state: &S, r: Option<TerminationReason>) -> bool {
        r is None || r == Some(TerminationReason::MaxTime)
    }

    /// Reads the clock (starting it on the first call) and reports
    /// [`TerminationReason::MaxTime`] exactly when the elapsed time it read
    /// has reached the budget.
    fn check(&mut self, _state: &S) -> (r: Option<TerminationReason>)
        ensures
            final(self).limit_nanos() == old(self).limit_nanos(),
            final(self).started(),
            old(self).started() ==> final(self).start_reading() == old(self).start_reading(),
            r == time_limit_verdict_spec(final(self).last_elapsed(), final(self).limit_nanos()),
    {
        let start = match self.start {
            Some(s) => s,
            None => {
                let s = instant_now();
                self.start = Some(s);
                s
            },
        };
        let elapsed = duration_nanos(&instant_elapsed(&start));
        self.last_elapsed = Ghost(elapsed);
        time_limit_verdict(elapsed, self.limit_nanos)
    }
}

/// The verdict of [`time_limit_verdict`].
pub open spec fn time_limit_verdict_spec(elapsed_nanos: u128, limit_nanos: u128) -> Option<
    TerminationReason,
> {
    if elapsed_nanos >= limit_nanos {
        Some(TerminationReason::MaxTime)
    } else {
        None
    }
}

/// Registering `MaxIter(n)` as a criterion has the effect of the built-in
/// iteration limit `n`: on every state it reports exactly when the limit
/// would stop the run, with the same reason.
pub proof fn lemma_max_iter_criterion_matches_limit<S: State>(
    n: u64,
    state: S,
    r: Option<TerminationReason>,
)
    requires
        MaxIter(n).may_report(&state, r),
    ensures
        r == (if state.spec_iter() >= n {
            Some(TerminationReason::MaxIter)
        } else {
            None
        }),
{
}

/// The wall-clock verdict is the threshold at the budget: it reports
/// [`TerminationReason::MaxTime`] exactly when the elapsed time has reached
/// the budget, and nothing while any of the budget is left. So the verdict
/// never fires earlier for a larger budget, nor later for more elapsed
/// time.
pub proof fn lemma_time_limit_threshold(elapsed_nanos: u128, limit_nanos: u128)
    ensures
        time_limit_verdict_spec(elapsed_nanos, limit_nanos) is Some <==> elapsed_nanos
            >= limit_nanos,
        elapsed_nanos < limit_nanos ==> time_limit_verdict_spec(elapsed_nanos, limit_nanos)
            is None,
        time_limit_verdict_spec(elapsed_nanos, limit_nanos) is Some ==> time_limit_verdict_spec(
            elapsed_nanos,
            limit_nanos,
        ) == Some(TerminationReason::MaxTime),
{
}

/// The verdict is monotone: once it fires for some elapsed time it fires
/// for every later one, and a verdict that fires for a budget fires for
/// every smaller budget.
pub proof fn lemma_time_limit_monotone(e1: u128, e2: u128, l1: u128, l2: u128)
    requires
        e1 <= e2,
        l2 <= l1,
        time_limit_verdict_spec(e1, l1) is Some,
    ensures
        time_limit_verdict_spec(e2, l2) == Some(TerminationReason::MaxTime),
{
}

} // verus!
