//! Iteration driver. The high-level entry point is [`Executor`];
//! [`Stepper`] exposes one-iteration-at-a-time control, and [`run_loop`]
//! is the borrowed-problem variant used by composed solvers.
//!
//! # Canonical iteration ordering
//!
//! 1. [`Solver::init`] is called **once**, on the initial state.
//! 2. Then, before each [`Solver::next_iter`] call (including the first):
//!    1. the built-in iteration limit is checked against [`State::iter`];
//!       if `state.iter() >= max_iter` the run stops with
//!       [`TerminationReason::MaxIter`];
//!    2. each registered [`TerminationCriterion`] is checked **in
//!       insertion order**; the **first to return `Some(reason)` halts the
//!       run** and later criteria are not consulted;
//!    3. the solver's own [`Solver::terminate`] hook is checked.
//! 3. If nothing fired, [`Solver::next_iter`] is called. A mid-iteration
//!    termination it reports stops the run **without** counting the
//!    iteration; otherwise the iteration counter is incremented.
//!
//! [`one_step`] states this ordering exactly, over what the solver's
//! methods may answer ([`Solver::may_init`], [`Solver::may_advance`],
//! [`Solver::may_terminate`]); [`step_once`] is proved against it. A whole
//! run is a [`RunTrace`] of such steps ([`run_trace`], [`initialized_run`]),
//! and every driver in this module states its result as one.

use vstd::prelude::*;

use crate::framework::solver::Solver;
use crate::framework::state::State;
use crate::framework::termination::{TerminationCriterion, TerminationReason};

verus! {

/// Outcome of an optimisation run: the final solver state plus the
/// reason the executor stopped.
pub struct OptimizationResult<S> {
    /// The final state.
    pub state: S,
    /// Why the run stopped.
    pub reason: TerminationReason,
}

impl<S: State> OptimizationResult<S> {
    /// The final iterate.
    pub fn param(&self) -> (r: &S::Param)
        ensures
            r == self.state.spec_param(),
    {
        self.state.param()
    }

    /// The cost at the final iterate.
    pub fn cost(&self) -> (r: S::Float)
        ensures
            r == self.state.spec_cost(),
    {
        self.state.cost()
    }

    /// Number of completed iterations.
    pub fn iter(&self) -> (r: u64)
        ensures
            r == self.state.spec_iter(),
    {
        self.state.iter()
    }

    /// Number of cost evaluations spent by the run.
    pub fn cost_evals(&self) -> (r: u64)
        ensures
            r == self.state.spec_cost_evals(),
    {
        self.state.cost_evals()
    }

    /// The final state.
    pub fn into_state(self) -> (r: S)
        ensures
            r == self.state,
    {
        self.state
    }
}

/// Outcome of a single [`Stepper::step`] call.
#[derive(Debug, Clone, Copy, PartialEq, Eq, Structural)]
pub enum StepOutcome {
    /// One more iteration completed; the run goes on.
    Continue,
    /// The run stopped, for this reason.
    Stopped(TerminationReason),
}

/// The criteria registered with a driver, in insertion order.
pub type Criteria<S> = Vec<Box<dyn TerminationCriterion<S>>>;

/// The criteria `before[0..results.len()]` were consulted in order on
/// `state` and answered `results`: every answer but the last was `None`,
/// the consultation stopped early only at a `Some`, each answer is one its
/// criterion may give, and the criteria not consulted are untouched.
pub open spec fn checked_in_order<S>(
    before: Seq<Box<dyn TerminationCriterion<S>>>,
    after: Seq<Box<dyn TerminationCriterion<S>>>,
    state: S,
    results: Seq<Option<TerminationReason>>,
) -> bool {
    &&& results.len() <= before.len()
    &&& after.len() == before.len()
    &&& forall|j: int| 0 <= j < results.len() - 1 ==> #[trigger] results[j] is None
    &&& forall|j: int| 0 <= j < results.len() ==> before[j].may_report(&state, #[trigger] results[j])
    &&& forall|j: int| results.len() <= j < before.len() ==> #[trigger] after[j] == before[j]
    &&& results.len() < before.len() ==> results.len() > 0 && results.last() is Some
}

/// The reason a criteria pass reported: the last answer, if any.
pub open spec fn reported(results: Seq<Option<TerminationReason>>) -> Option<TerminationReason> {
    if results.len() > 0 {
        results.last()
    } else {
        None
    }
}

/// The reason the checks before an iteration stop the run, if any: the
/// iteration limit first, then the criteria pass, then the solver's hook.
pub open spec fn stop_before_iteration(
    iter: u64,
    max_iter: u64,
    results: Seq<Option<TerminationReason>>,
    verdict: Option<TerminationReason>,
) -> Option<TerminationReason> {
    if iter >= max_iter {
        Some(TerminationReason::MaxIter)
    } else if reported(results) is Some {
        reported(results)
    } else {
        verdict
    }
}

/// `after` is `mid` with the iteration counted: one more on the counter,
/// and the iterate, its cost and the evaluation counter as they were.
pub open spec fn counted<S: State>(mid: S, after: S) -> bool {
    &&& after.spec_iter() == mid.spec_iter() + 1
    &&& after.spec_cost_evals() == mid.spec_cost_evals()
    &&& after.spec_param() == mid.spec_param()
    &&& after.spec_cost() == mid.spec_cost()
    &&& mid.spec_counted(&after)
}

/// One step of the canonical iteration ordering on `problem`, from state
/// `before` to state `after`: `results` are the answers of the criteria
/// consulted, `verdict` the answer of the solver's hook (asked only when
/// the limit and the criteria let the step go on), and `advanced` what
/// `next_iter` returned, when it was called.
///
/// When a check fires, nothing moves and `next_iter` is not called.
/// Otherwise `next_iter` is called on `before`; a reason it reports stops
/// the step with that reason and its state, uncounted; else its state,
/// with the iteration counted, is the new state.
pub open spec fn one_step<P, S: State, So: Solver<P, S>>(
    problem: P,
    before: S,
    after: S,
    solver_before: So,
    solver_after: So,
    criteria_before: Seq<Box<dyn TerminationCriterion<S>>>,
    criteria_after: Seq<Box<dyn TerminationCriterion<S>>>,
    max_iter: u64,
    outcome: StepOutcome,
    results: Seq<Option<TerminationReason>>,
    verdict: Option<TerminationReason>,
    advanced: Option<(S, Option<TerminationReason>)>,
) -> bool {
    &&& criteria_after.len() == criteria_before.len()
    &&& if before.spec_iter() >= max_iter {
        results.len() == 0 && criteria_after == criteria_before
    } else {
        checked_in_order(criteria_before, criteria_after, before, results)
    }
    &&& (before.spec_iter() < max_iter && reported(results) is None) ==> solver_before.may_terminate(
        &before,
        verdict,
    )
    &&& match stop_before_iteration(before.spec_iter(), max_iter, results, verdict) {
        Some(reason) => {
            &&& outcome == StepOutcome::Stopped(reason)
            &&& after == before
            &&& solver_after == solver_before
            &&& advanced is None
        },
        None => {
            &&& advanced is Some
            &&& solver_before.may_advance(
                &problem,
                before,
                advanced.unwrap().0,
                advanced.unwrap().1,
                &solver_after,
            )
            &&& advanced.unwrap().0.spec_iter() == before.spec_iter()
            &&& match advanced.unwrap().1 {
                Some(reason) => outcome == StepOutcome::Stopped(reason) && after
                    == advanced.unwrap().0,
                None => outcome == StepOutcome::Continue && counted(advanced.unwrap().0, after),
            }
        },
    }
}

/// Consult `criteria` in order on `state`; stop at the first `Some`.
/// Returns the reason reported, if any, and the answers given.
fn check_criteria<S>(criteria: &mut Criteria<S>, state: &S) -> (r: (
    Option<TerminationReason>,
    Ghost<Seq<Option<TerminationReason>>>,
))
    ensures
        checked_in_order(old(criteria)@, final(criteria)@, *state, r.1@),
        r.0 == reported(r.1@),
{
    let n = criteria.len();
    let mut i: usize = 0;
    let ghost mut results: Seq<Option<TerminationReason>> = Seq::empty();
    while i < n
        invariant
            n == criteria.len(),
            n == old(criteria)@.len(),
            i <= n,
            results.len() == i,
            forall|j: int| 0 <= j < i ==> #[trigger] results[j] is None,
            forall|j: int|
                0 <= j < i ==> old(criteria)@[j].may_report(state, #[trigger] results[j]),
            forall|j: int| i <= j < n ==> #[trigger] criteria@[j] == old(criteria)@[j],
        decreases n - i,
    {
        let answer = criteria[i].check(state);
        proof {
            results = results.push(answer);
        }
        if answer.is_some() {
            return (answer, Ghost(results));
        }
        i = i + 1;
    }
    (None, Ghost(results))
}

/// Single-iteration core, shared by [`Stepper::step`] (owned) and
/// [`run_loop`] (borrowed): run the checks in canonical order and either
/// stop (nothing moves) or hand the state to `solver.next_iter`, counting
/// the iteration unless the solver reported a mid-iteration stop.
/// Returns the outcome, the criteria answers, the solver hook's answer and
/// what `next_iter` returned.
fn step_once<P, S: State, So: Solver<P, S>>(
    problem: &P,
    state_slot: &mut Option<S>,
    solver: &mut So,
    criteria: &mut Criteria<S>,
    max_iter: u64,
) -> (r: (
    StepOutcome,
    Ghost<Seq<Option<TerminationReason>>>,
    Ghost<Option<TerminationReason>>,
    Ghost<Option<(S, Option<TerminationReason>)>>,
))
    requires
        old(state_slot).is_some(),
    ensures
        final(state_slot).is_some(),
        one_step(
            *problem,
            old(state_slot).unwrap(),
            final(state_slot).unwrap(),
            *old(solver),
            *final(solver),
            old(criteria)@,
            final(criteria)@,
            max_iter,
            r.0,
            r.1@,
            r.2@,
            r.3@,
        ),
{
    let results: Ghost<Seq<Option<TerminationReason>>>;
    let verdict: Option<TerminationReason>;
    {
        let state = state_slot.as_ref().unwrap();
        if state.iter() >= max_iter {
            return (
                StepOutcome::Stopped(TerminationReason::MaxIter),
                Ghost(Seq::empty()),
                Ghost(None),
                Ghost(None),
            );
        }
        let (fired, answers) = check_criteria(criteria, state);
        results = answers;
        if let Some(reason) = fired {
            return (StepOutcome::Stopped(reason), results, Ghost(None), Ghost(None));
        }
        verdict = solver.terminate(state);
        if let Some(reason) = verdict {
            return (StepOutcome::Stopped(reason), results, Ghost(verdict), Ghost(None));
        }
    }
    let prev = state_slot.take().unwrap();
    let (mut next, mid_iter_reason) = solver.next_iter(problem, prev);
    let ghost advanced = Some((next, mid_iter_reason));
    if let Some(reason) = mid_iter_reason {
        *state_slot = Some(next);
        return (StepOutcome::Stopped(reason), results, Ghost(verdict), Ghost(advanced));
    }
    next.increment_iter();
    *state_slot = Some(next);
    (StepOutcome::Continue, results, Ghost(verdict), Ghost(advanced))
}

/// The iteration limit `max_iter` caps a run started at iteration `iter0`:
/// it never counts past `max(max_iter, iter0)`, and a run that ends at or
/// beyond the limit ends with [`TerminationReason::MaxIter`].
pub open spec fn respects_limit<S: State>(
    result: OptimizationResult<S>,
    max_iter: u64,
    iter0: u64,
) -> bool {
    &&& result.state.spec_iter() <= if max_iter >= iter0 {
        max_iter
    } else {
        iter0
    }
    &&& result.state.spec_iter() >= max_iter ==> result.reason == TerminationReason::MaxIter
}

/// How far a run at iteration `iter` still is from the limit.
pub open spec fn iterations_left(iter: u64, max_iter: u64) -> nat {
    if iter <= max_iter {
        (max_iter - iter) as nat
    } else {
        0
    }
}

/// The ghost record of a run, step by step: `states[i]`, `solvers[i]` and
/// `criteria[i]` are what step `i` started from (the last entries are what
/// the run ended with), and `checks[i]`, `verdicts[i]` and `advances[i]`
/// are what the criteria, the solver's hook and `next_iter` answered in
/// step `i`.
#[verifier::reject_recursive_types(S)]
pub struct RunTrace<S, So> {
    /// The states between steps.
    pub states: Seq<S>,
    /// The solvers between steps.
    pub solvers: Seq<So>,
    /// The criteria between steps.
    pub criteria: Seq<Seq<Box<dyn TerminationCriterion<S>>>>,
    /// The criteria answers of each step.
    pub checks: Seq<Seq<Option<TerminationReason>>>,
    /// The solver hook's answer in each step.
    pub verdicts: Seq<Option<TerminationReason>>,
    /// What `next_iter` returned in each step that called it.
    pub advances: Seq<Option<(S, Option<TerminationReason>)>>,
}

impl<S, So> RunTrace<S, So> {
    /// Number of steps recorded.
    pub open spec fn steps(self) -> int {
        self.checks.len() as int
    }

    /// One entry per step, and one more state, solver and criteria list
    /// than steps.
    pub open spec fn well_shaped(self) -> bool {
        &&& self.states.len() == self.checks.len() + 1
        &&& self.solvers.len() == self.checks.len() + 1
        &&& self.criteria.len() == self.checks.len() + 1
        &&& self.verdicts.len() == self.checks.len()
        &&& self.advances.len() == self.checks.len()
    }

    /// The record extended by one step, ending at `state`, `solver` and
    /// `criteria`.
    pub open spec fn extend(
        self,
        state: S,
        solver: So,
        criteria: Seq<Box<dyn TerminationCriterion<S>>>,
        checks: Seq<Option<TerminationReason>>,
        verdict: Option<TerminationReason>,
        advance: Option<(S, Option<TerminationReason>)>,
    ) -> Self {
        RunTrace {
            states: self.states.push(state),
            solvers: self.solvers.push(solver),
            criteria: self.criteria.push(criteria),
            checks: self.checks.push(checks),
            verdicts: self.verdicts.push(verdict),
            advances: self.advances.push(advance),
        }
    }
}

/// The record of no step at all, at `state`, `solver` and `criteria`.
pub open spec fn trace_start<S, So>(
    state: S,
    solver: So,
    criteria: Seq<Box<dyn TerminationCriterion<S>>>,
) -> RunTrace<S, So> {
    RunTrace {
        states: seq![state],
        solvers: seq![solver],
        criteria: seq![criteria],
        checks: Seq::empty(),
        verdicts: Seq::empty(),
        advances: Seq::empty(),
    }
}

/// Step `i` of `t` is a [`one_step`] on `problem` with `outcome`.
pub open spec fn trace_step<P, S: State, So: Solver<P, S>>(
    t: RunTrace<S, So>,
    problem: P,
    max_iter: u64,
    i: int,
    outcome: StepOutcome,
) -> bool {
    one_step(
        problem,
        t.states[i],
        t.states[i + 1],
        t.solvers[i],
        t.solvers[i + 1],
        t.criteria[i],
        t.criteria[i + 1],
        max_iter,
        outcome,
        t.checks[i],
        t.verdicts[i],
        t.advances[i],
    )
}

/// Every step recorded in `t` continued.
pub open spec fn trace_continues<P, S: State, So: Solver<P, S>>(
    t: RunTrace<S, So>,
    problem: P,
    max_iter: u64,
) -> bool {
    &&& t.well_shaped()
    &&& forall|i: int|
        0 <= i < t.steps() ==> #[trigger] trace_step(t, problem, max_iter, i, StepOutcome::Continue)
}

/// `t` records a run on `problem` from `state`, `solver` and `criteria`:
/// steps that continued, then one that stopped with `result.reason`,
/// leaving `result.state`.
pub open spec fn run_trace<P, S: State, So: Solver<P, S>>(
    t: RunTrace<S, So>,
    problem: P,
    state: S,
    solver: So,
    criteria: Seq<Box<dyn TerminationCriterion<S>>>,
    max_iter: u64,
    result: OptimizationResult<S>,
) -> bool {
    &&& t.well_shaped()
    &&& t.steps() >= 1
    &&& t.states[0] == state
    &&& t.solvers[0] == solver
    &&& t.criteria[0] == criteria
    &&& forall|i: int|
        0 <= i < t.steps() - 1 ==> #[trigger] trace_step(
            t,
            problem,
            max_iter,
            i,
            StepOutcome::Continue,
        )
    &&& trace_step(t, problem, max_iter, t.steps() - 1, StepOutcome::Stopped(result.reason))
    &&& result.state == t.states[t.steps()]
}

/// `t` records a whole run: `init` of `solver` on `problem` turned `state`
/// into `t.states[0]` (same counter), and the run from there is `t`.
pub open spec fn initialized_run<P, S: State, So: Solver<P, S>>(
    t: RunTrace<S, So>,
    problem: P,
    state: S,
    solver: So,
    criteria: Seq<Box<dyn TerminationCriterion<S>>>,
    max_iter: u64,
    result: OptimizationResult<S>,
) -> bool {
    &&& t.states.len() > 0
    &&& solver.may_init(&problem, state, t.states[0], &t.solvers[0])
    &&& t.states[0].spec_iter() == state.spec_iter()
    &&& run_trace(t, problem, t.states[0], t.solvers[0], criteria, max_iter, result)
}

/// The results a run on `problem` from `state`, `solver`, `criteria` and
/// limit `max_iter` may end with: those of some [`initialized_run`].
/// [`Executor::run`], [`Executor::into_stepper`] followed by
/// [`Stepper::run_to_end`], and [`run_loop`] all end with one.
pub open spec fn run_result<P, S: State, So: Solver<P, S>>(
    problem: P,
    state: S,
    solver: So,
    criteria: Seq<Box<dyn TerminationCriterion<S>>>,
    max_iter: u64,
    result: OptimizationResult<S>,
) -> bool {
    exists|t: RunTrace<S, So>|
        #[trigger] initialized_run(t, problem, state, solver, criteria, max_iter, result)
}

/// Extending a record of continued steps by one more continued step keeps
/// it one.
proof fn lemma_trace_extend_continue<P, S: State, So: Solver<P, S>>(
    t: RunTrace<S, So>,
    problem: P,
    max_iter: u64,
    state: S,
    solver: So,
    criteria: Seq<Box<dyn TerminationCriterion<S>>>,
    checks: Seq<Option<TerminationReason>>,
    verdict: Option<TerminationReason>,
    advance: Option<(S, Option<TerminationReason>)>,
)
    requires
        trace_continues(t, problem, max_iter),
        one_step(
            problem,
            t.states.last(),
            state,
            t.solvers.last(),
            solver,
            t.criteria.last(),
            criteria,
            max_iter,
            StepOutcome::Continue,
            checks,
            verdict,
            advance,
        ),
    ensures
        trace_continues(t.extend(state, solver, criteria, checks, verdict, advance), problem, max_iter),
        t.extend(state, solver, criteria, checks, verdict, advance).states[0] == t.states[0],
        t.extend(state, solver, criteria, checks, verdict, advance).solvers[0] == t.solvers[0],
        t.extend(state, solver, criteria, checks, verdict, advance).criteria[0] == t.criteria[0],
{
    let u = t.extend(state, solver, criteria, checks, verdict, advance);
    assert forall|i: int| 0 <= i < u.steps() implies #[trigger] trace_step(
        u,
        problem,
        max_iter,
        i,
        StepOutcome::Continue,
    ) by {
        if i < t.steps() {
            assert(trace_step(t, problem, max_iter, i, StepOutcome::Continue));
            assert(u.states[i] == t.states[i] && u.states[i + 1] == t.states[i + 1]);
            assert(u.solvers[i] == t.solvers[i] && u.solvers[i + 1] == t.solvers[i + 1]);
            assert(u.criteria[i] == t.criteria[i] && u.criteria[i + 1] == t.criteria[i + 1]);
            assert(u.checks[i] == t.checks[i]);
            assert(u.verdicts[i] == t.verdicts[i]);
            assert(u.advances[i] == t.advances[i]);
        } else {
            assert(u.states[i] == t.states.last());
            assert(u.solvers[i] == t.solvers.last());
            assert(u.criteria[i] == t.criteria.last());
        }
    }
}

/// Extending a record of continued steps by a step that stopped with
/// `reason` gives the record of a whole run ending there.
proof fn lemma_trace_extend_stop<P, S: State, So: Solver<P, S>>(
    t: RunTrace<S, So>,
    problem: P,
    max_iter: u64,
    state: S,
    solver: So,
    criteria: Seq<Box<dyn TerminationCriterion<S>>>,
    checks: Seq<Option<TerminationReason>>,
    verdict: Option<TerminationReason>,
    advance: Option<(S, Option<TerminationReason>)>,
    reason: TerminationReason,
)
    requires
        trace_continues(t, problem, max_iter),
        one_step(
            problem,
            t.states.last(),
            state,
            t.solvers.last(),
            solver,
            t.criteria.last(),
            criteria,
            max_iter,
            StepOutcome::Stopped(reason),
            checks,
            verdict,
            advance,
        ),
    ensures
        run_trace(
            t.extend(state, solver, criteria, checks, verdict, advance),
            problem,
            t.states[0],
            t.solvers[0],
            t.criteria[0],
            max_iter,
            OptimizationResult { state, reason },
        ),
{
    let u = t.extend(state, solver, criteria, checks, verdict, advance);
    assert forall|i: int| 0 <= i < u.steps() - 1 implies #[trigger] trace_step(
        u,
        problem,
        max_iter,
        i,
        StepOutcome::Continue,
    ) by {
        assert(trace_step(t, problem, max_iter, i, StepOutcome::Continue));
        assert(u.states[i] == t.states[i] && u.states[i + 1] == t.states[i + 1]);
        assert(u.solvers[i] == t.solvers[i] && u.solvers[i + 1] == t.solvers[i + 1]);
        assert(u.criteria[i] == t.criteria[i] && u.criteria[i + 1] == t.criteria[i + 1]);
        assert(u.checks[i] == t.checks[i]);
        assert(u.verdicts[i] == t.verdicts[i]);
        assert(u.advances[i] == t.advances[i]);
    }
    let k = t.steps();
    assert(u.states[k] == t.states.last());
    assert(u.solvers[k] == t.solvers.last());
    assert(u.criteria[k] == t.criteria.last());
    assert(trace_step(u, problem, max_iter, k, StepOutcome::Stopped(reason)));
}

/// Drive a solver one iteration at a time.
///
/// Owns the problem, state, solver and termination criteria; `solver.init`
/// has already run when a stepper is built (see
/// [`Executor::into_stepper`]). Once a `Stopped` outcome has been returned
/// the stepper is sticky: later calls return the same outcome and touch
/// nothing.
#[verifier::reject_recursive_types(S)]
pub struct Stepper<P, S, So> {
    problem: P,
    state: Option<S>,
    solver: So,
    criteria: Criteria<S>,
    max_iter: u64,
    finished: Option<TerminationReason>,
    last_checks: Ghost<Seq<Option<TerminationReason>>>,
    last_verdict: Ghost<Option<TerminationReason>>,
    last_advance: Ghost<Option<(S, Option<TerminationReason>)>>,
}

impl<P, S: State, So> Stepper<P, S, So> {
    /// The state slot is filled (it is, between steps).
    pub closed spec fn wf(&self) -> bool {
        self.state is Some
    }

    /// The current state.
    pub closed spec fn current(&self) -> S {
        self.state->0
    }

    /// The problem being solved.
    pub closed spec fn problem_spec(&self) -> P {
        self.problem
    }

    /// The solver.
    pub closed spec fn solver_spec(&self) -> So {
        self.solver
    }

    /// The registered criteria, in insertion order.
    pub closed spec fn criteria_spec(&self) -> Seq<Box<dyn TerminationCriterion<S>>> {
        self.criteria@
    }

    /// The iteration limit.
    pub closed spec fn max_iter_spec(&self) -> u64 {
        self.max_iter
    }

    /// Why the stepper stopped, once it has.
    pub closed spec fn finished_spec(&self) -> Option<TerminationReason> {
        self.finished
    }

    /// The answers the criteria gave in the last step.
    pub closed spec fn last_checks(&self) -> Seq<Option<TerminationReason>> {
        self.last_checks@
    }

    /// The answer the solver's hook gave in the last step.
    pub closed spec fn last_verdict(&self) -> Option<TerminationReason> {
        self.last_verdict@
    }

    /// What `next_iter` returned in the last step, if it was called.
    pub closed spec fn last_advance(&self) -> Option<(S, Option<TerminationReason>)> {
        self.last_advance@
    }
}

impl<P, S: State, So: Solver<P, S>> Stepper<P, S, So> {
    /// Read-only access to the current state, between steps.
    pub fn state(&self) -> (r: &S)
        requires
            self.wf(),
        ensures
            *r == self.current(),
    {
        self.state.as_ref().unwrap()
    }

    /// Termination reason if the stepper has stopped, else `None`.
    pub fn finished(&self) -> (r: Option<&TerminationReason>)
        ensures
            r is Some == self.finished_spec() is Some,
            r matches Some(x) ==> *x == self.finished_spec()->0,
    {
        self.finished.as_ref()
    }

    /// Total iterations completed so far.
    pub fn iter(&self) -> (r: u64)
        requires
            self.wf(),
        ensures
            r == self.current().spec_iter(),
    {
        self.state().iter()
    }

    /// Advance one iteration, in the canonical order of [`one_step`]. Once
    /// `Stopped` has been returned, later calls return it again and leave
    /// everything as it is.
    pub fn step(&mut self) -> (r: StepOutcome)
        requires
            old(self).wf(),
        ensures
            final(self).wf(),
            final(self).problem_spec() == old(self).problem_spec(),
            final(self).max_iter_spec() == old(self).max_iter_spec(),
            old(self).finished_spec() matches Some(reason) ==> r == StepOutcome::Stopped(reason)
                && *final(self) == *old(self),
            final(self).criteria_spec().len() == old(self).criteria_spec().len(),
            old(self).finished_spec() is None ==> one_step(
                old(self).problem_spec(),
                old(self).current(),
                final(self).current(),
                old(self).solver_spec(),
                final(self).solver_spec(),
                old(self).criteria_spec(),
                final(self).criteria_spec(),
                old(self).max_iter_spec(),
                r,
                final(self).last_checks(),
                final(self).last_verdict(),
                final(self).last_advance(),
            ),
            old(self).finished_spec() is None ==> final(self).finished_spec() == match r {
                StepOutcome::Continue => None,
                StepOutcome::Stopped(reason) => Some(reason),
            },
    {
        if let Some(reason) = self.finished {
            return StepOutcome::Stopped(reason);
        }
        let (outcome, results, verdict, advance) = step_once(
            &self.problem,
            &mut self.state,
            &mut self.solver,
            &mut self.criteria,
            self.max_iter,
        );
        self.last_checks = results;
        self.last_verdict = verdict;
        self.last_advance = advance;
        if let StepOutcome::Stopped(reason) = outcome {
            self.finished = Some(reason);
        }
        outcome
    }

    /// Drive [`step`](Self::step) to completion and return an
    /// [`OptimizationResult`]: the reason of the first `Stopped` outcome and
    /// the state at that point (at once, for a stepper that has stopped).
    pub fn run_to_end(self) -> (r: OptimizationResult<S>)
        requires
            self.wf(),
        ensures
            self.finished_spec() matches Some(reason) ==> r.reason == reason && r.state
                == self.current(),
            self.finished_spec() is None ==> respects_limit(
                r,
                self.max_iter_spec(),
                self.current().spec_iter(),
            ),
            self.finished_spec() is None ==> exists|t: RunTrace<S, So>|
                #[trigger] run_trace(
                    t,
                    self.problem_spec(),
                    self.current(),
                    self.solver_spec(),
                    self.criteria_spec(),
                    self.max_iter_spec(),
                    r,
                ),
    {
        let ghost start = self;
        let mut stepper = self;
        let ghost mut tr: RunTrace<S, So> = trace_start(
            start.current(),
            start.solver_spec(),
            start.criteria_spec(),
        );
        loop
            invariant
                stepper.wf(),
                start == self,
                stepper.max_iter_spec() == start.max_iter_spec(),
                stepper.problem_spec() == start.problem_spec(),
                start.finished_spec() is Some ==> stepper == start,
                start.finished_spec() is None ==> stepper.finished_spec() is None,
                start.finished_spec() is None ==> stepper.current().spec_iter() <= if start.max_iter_spec()
                    >= start.current().spec_iter() {
                    start.max_iter_spec()
                } else {
                    start.current().spec_iter()
                },
                trace_continues(tr, start.problem_spec(), start.max_iter_spec()),
                tr.states[0] == start.current(),
                tr.solvers[0] == start.solver_spec(),
                tr.criteria[0] == start.criteria_spec(),
                tr.states.last() == stepper.current(),
                tr.solvers.last() == stepper.solver_spec(),
                tr.criteria.last() == stepper.criteria_spec(),
            decreases iterations_left(stepper.current().spec_iter(), stepper.max_iter_spec()),
        {
            let outcome = stepper.step();
            match outcome {
                StepOutcome::Stopped(reason) => {
                    proof {
                        if start.finished_spec() is None {
                            lemma_trace_extend_stop(
                                tr,
                                start.problem_spec(),
                                start.max_iter_spec(),
                                stepper.current(),
                                stepper.solver_spec(),
                                stepper.criteria_spec(),
                                stepper.last_checks(),
                                stepper.last_verdict(),
                                stepper.last_advance(),
                                reason,
                            );
                        }
                    }
                    let r = OptimizationResult { state: stepper.state.take().unwrap(), reason };
                    return r;
                },
                StepOutcome::Continue => {
                    proof {
                        lemma_trace_extend_continue(
                            tr,
                            start.problem_spec(),
                            start.max_iter_spec(),
                            stepper.current(),
                            stepper.solver_spec(),
                            stepper.criteria_spec(),
                            stepper.last_checks(),
                            stepper.last_verdict(),
                            stepper.last_advance(),
                        );
                        tr = tr.extend(
                            stepper.current(),
                            stepper.solver_spec(),
                            stepper.criteria_spec(),
                            stepper.last_checks(),
                            stepper.last_verdict(),
                            stepper.last_advance(),
                        );
                    }
                },
            }
        }
    }

    /// Consume the stepper and return the current state.
    pub fn into_state(self) -> (r: S)
        requires
            self.wf(),
        ensures
            r == self.current(),
    {
        self.state.unwrap()
    }
}

/// Drive a solver to completion against a borrowed problem: `init` once,
/// then steps in the canonical order of [`one_step`] until one stops.
/// Composed solvers call this to run an inner solver against the outer's
/// problem without taking ownership of it.
pub fn run_loop<P, S: State, So: Solver<P, S>>(
    problem: &P,
    state: S,
    solver: &mut So,
    criteria: &mut Criteria<S>,
    max_iter: u64,
) -> (r: OptimizationResult<S>)
    ensures
        respects_limit(r, max_iter, state.spec_iter()),
        final(criteria)@.len() == old(criteria)@.len(),
        run_result(*problem, state, *old(solver), old(criteria)@, max_iter, r),
        exists|t: RunTrace<S, So>|
            {
                &&& #[trigger] initialized_run(
                    t,
                    *problem,
                    state,
                    *old(solver),
                    old(criteria)@,
                    max_iter,
                    r,
                )
                &&& *final(solver) == t.solvers.last()
                &&& final(criteria)@ == t.criteria.last()
            },
{
    let initialized = solver.init(problem, state);
    let ghost iter0 = initialized.spec_iter();
    let ghost mut tr: RunTrace<S, So> = trace_start(initialized, *solver, criteria@);
    let mut slot = Some(initialized);
    loop
        invariant
            slot is Some,
            iter0 == state.spec_iter(),
            criteria@.len() == old(criteria)@.len(),
            slot->0.spec_iter() <= if max_iter >= iter0 {
                max_iter
            } else {
                iter0
            },
            trace_continues(tr, *problem, max_iter),
            tr.states[0].spec_iter() == state.spec_iter(),
            old(solver).may_init(problem, state, tr.states[0], &tr.solvers[0]),
            tr.criteria[0] == old(criteria)@,
            tr.states.last() == slot->0,
            tr.solvers.last() == *solver,
            tr.criteria.last() == criteria@,
        decreases iterations_left(slot->0.spec_iter(), max_iter),
    {
        let ghost slot_before = slot;
        let (outcome, results, verdict, advance) = step_once(
            problem,
            &mut slot,
            solver,
            criteria,
            max_iter,
        );
        match outcome {
            StepOutcome::Stopped(reason) => {
                proof {
                    lemma_trace_extend_stop(
                        tr,
                        *problem,
                        max_iter,
                        slot->0,
                        *solver,
                        criteria@,
                        results@,
                        verdict@,
                        advance@,
                        reason,
                    );
                    let u = tr.extend(slot->0, *solver, criteria@, results@, verdict@, advance@);
                    assert(u.states[0] == tr.states[0]);
                    assert(u.solvers[0] == tr.solvers[0]);
                    assert(u.criteria[0] == tr.criteria[0]);
                    assert(u.solvers.last() == *solver);
                    assert(u.criteria.last() == criteria@);
                    tr = u;
                }
                let r = OptimizationResult { state: slot.take().unwrap(), reason };
                assert(initialized_run(tr, *problem, state, *old(solver), old(criteria)@, max_iter, r));
                return r;
            },
            StepOutcome::Continue => {
                proof {
                    lemma_trace_extend_continue(
                        tr,
                        *problem,
                        max_iter,
                        slot->0,
                        *solver,
                        criteria@,
                        results@,
                        verdict@,
                        advance@,
                    );
                    tr = tr.extend(slot->0, *solver, criteria@, results@, verdict@, advance@);
                }
            },
        }
    }
}

/// The user-facing driver: owns the problem, solver, initial state, the
/// iteration limit (default `1000`) and the termination criteria.
#[verifier::reject_recursive_types(S)]
pub struct Executor<P, S, So> {
    problem: P,
    state: S,
    solver: So,
    max_iter: u64,
    criteria: Criteria<S>,
}

impl<P, S, So> Executor<P, S, So> {
    /// The problem.
    pub closed spec fn problem_spec(&self) -> P {
        self.problem
    }

    /// The initial state.
    pub closed spec fn state_spec(&self) -> S {
        self.state
    }

    /// The solver.
    pub closed spec fn solver_spec(&self) -> So {
        self.solver
    }

    /// The iteration limit.
    pub closed spec fn max_iter_spec(&self) -> u64 {
        self.max_iter
    }

    /// The registered criteria, in insertion order.
    pub closed spec fn criteria_spec(&self) -> Seq<Box<dyn TerminationCriterion<S>>> {
        self.criteria@
    }

    /// This executor with the iteration limit set to `n`.
    pub closed spec fn with_max_iter(self, n: u64) -> Self {
        Executor { max_iter: n, ..self }
    }
}

/// Setting the iteration limit replaces it rather than stacking: only the
/// last setting counts, and nothing else changes.
pub proof fn lemma_max_iter_replaces<P, S, So>(e: Executor<P, S, So>, a: u64, b: u64)
    ensures
        e.with_max_iter(a).with_max_iter(b) == e.with_max_iter(b),
        e.with_max_iter(b).max_iter_spec() == b,
        e.with_max_iter(b).criteria_spec() == e.criteria_spec(),
        e.with_max_iter(b).problem_spec() == e.problem_spec(),
        e.with_max_iter(b).solver_spec() == e.solver_spec(),
        e.with_max_iter(b).state_spec() == e.state_spec(),
{
}

impl<P, S: State, So: Solver<P, S>> Executor<P, S, So> {
    /// An executor with the default iteration limit `1000` and no criteria.
    pub fn new(problem: P, solver: So, state: S) -> (r: Self)
        ensures
            r.problem_spec() == problem,
            r.solver_spec() == solver,
            r.state_spec() == state,
            r.max_iter_spec() == 1000,
            r.criteria_spec().len() == 0,
    {
        Self { problem, state, solver, max_iter: 1000, criteria: Vec::new() }
    }

    /// Set the built-in iteration limit. Subsequent calls replace rather
    /// than stack.
    pub fn max_iter(self, n: u64) -> (r: Self)
        ensures
            r == self.with_max_iter(n),
            r.max_iter_spec() == n,
            r.problem_spec() == self.problem_spec(),
            r.solver_spec() == self.solver_spec(),
            r.state_spec() == self.state_spec(),
            r.criteria_spec() == self.criteria_spec(),
    {
        Executor { max_iter: n, ..self }
    }

    /// Add a termination criterion, boxed as the trait object the executor
    /// keeps. Criteria are checked in insertion order before each iteration
    /// (and before iter 0); the first to return `Some(_)` stops the run.
    pub fn terminate_on(self, criterion: Box<dyn TerminationCriterion<S>>) -> (r: Self)
        ensures
            r.criteria_spec() == self.criteria_spec().push(criterion),
            r.problem_spec() == self.problem_spec(),
            r.solver_spec() == self.solver_spec(),
            r.state_spec() == self.state_spec(),
            r.max_iter_spec() == self.max_iter_spec(),
    {
        let mut executor = self;
        executor.criteria.push(criterion);
        executor
    }

    /// Run `solver.init` and return a [`Stepper`] sitting at the resulting
    /// state, before any check.
    pub fn into_stepper(self) -> (r: Stepper<P, S, So>)
        ensures
            r.wf(),
            r.problem_spec() == self.problem_spec(),
            r.criteria_spec() == self.criteria_spec(),
            r.max_iter_spec() == self.max_iter_spec(),
            r.finished_spec() is None,
            r.current().spec_iter() == self.state_spec().spec_iter(),
            self.solver_spec().may_init(
                &self.problem_spec(),
                self.state_spec(),
                r.current(),
                &r.solver_spec(),
            ),
    {
        let Executor { problem, state, mut solver, max_iter, criteria } = self;
        let state = solver.init(&problem, state);
        Stepper {
            problem,
            state: Some(state),
            solver,
            criteria,
            max_iter,
            finished: None,
            last_checks: Ghost(Seq::empty()),
            last_verdict: Ghost(None),
            last_advance: Ghost(None),
        }
    }

    /// Run to completion: `self.into_stepper().run_to_end()`.
    pub fn run(self) -> (r: OptimizationResult<S>)
        ensures
            respects_limit(r, self.max_iter_spec(), self.state_spec().spec_iter()),
            run_result(
                self.problem_spec(),
                self.state_spec(),
                self.solver_spec(),
                self.criteria_spec(),
                self.max_iter_spec(),
                r,
            ),
            exists|st: Stepper<P, S, So>|
                #[trigger] stepper_then_result(self, st, r),
    {
        let stepper = self.into_stepper();
        let ghost st = stepper;
        let r = stepper.run_to_end();
        proof {
            let t = choose|t: RunTrace<S, So>|
                #[trigger] run_trace(
                    t,
                    st.problem_spec(),
                    st.current(),
                    st.solver_spec(),
                    st.criteria_spec(),
                    st.max_iter_spec(),
                    r,
                );
            assert(initialized_run(
                t,
                self.problem_spec(),
                self.state_spec(),
                self.solver_spec(),
                self.criteria_spec(),
                self.max_iter_spec(),
                r,
            ));
            assert(stepper_then_result(self, st, r));
        }
        r
    }
}

/// `st` is a stepper [`Executor::into_stepper`] may give for `e`, and `r` a
/// result [`Stepper::run_to_end`] may give for `st`: what running `e` step
/// by step gives.
pub open spec fn stepper_then_result<P, S: State, So: Solver<P, S>>(
    e: Executor<P, S, So>,
    st: Stepper<P, S, So>,
    r: OptimizationResult<S>,
) -> bool {
    &&& st.wf()
    &&& st.problem_spec() == e.problem_spec()
    &&& st.criteria_spec() == e.criteria_spec()
    &&& st.max_iter_spec() == e.max_iter_spec()
    &&& st.finished_spec() is None
    &&& st.current().spec_iter() == e.state_spec().spec_iter()
    &&& e.solver_spec().may_init(
        &e.problem_spec(),
        e.state_spec(),
        st.current(),
        &st.solver_spec(),
    )
    &&& respects_limit(r, st.max_iter_spec(), st.current().spec_iter())
    &&& exists|t: RunTrace<S, So>|
        #[trigger] run_trace(
            t,
            st.problem_spec(),
            st.current(),
            st.solver_spec(),
            st.criteria_spec(),
            st.max_iter_spec(),
            r,
        )
}

/// Checks run before the iteration: when the iteration limit is not yet
/// reached and a criterion reports, the run stops with the first reported
/// reason, every earlier criterion answered `None`, the state (and with it
/// the iteration counter) and the solver are untouched, and the criteria
/// after the reporting one were not consulted. In particular an
/// already-optimal initial point exits before taking a step.
pub proof fn lemma_first_report_wins<P, S: State, So: Solver<P, S>>(
    problem: P,
    before: S,
    after: S,
    solver_before: So,
    solver_after: So,
    criteria_before: Seq<Box<dyn TerminationCriterion<S>>>,
    criteria_after: Seq<Box<dyn TerminationCriterion<S>>>,
    max_iter: u64,
    outcome: StepOutcome,
    results: Seq<Option<TerminationReason>>,
    verdict: Option<TerminationReason>,
    advanced: Option<(S, Option<TerminationReason>)>,
    k: int,
)
    requires
        one_step(
            problem,
            before,
            after,
            solver_before,
            solver_after,
            criteria_before,
            criteria_after,
            max_iter,
            outcome,
            results,
            verdict,
            advanced,
        ),
        before.spec_iter() < max_iter,
        0 <= k < results.len(),
        results[k] is Some,
    ensures
        k == results.len() - 1,
        outcome == StepOutcome::Stopped(results[k]->0),
        after == before,
        solver_after == solver_before,
        forall|j: int| 0 <= j < k ==> results[j] is None,
        forall|j: int| k < j < criteria_before.len() ==> criteria_after[j] == criteria_before[j],
{
    if k < results.len() - 1 {
        assert(results[k] is None);
    }
}

/// The iteration limit is checked first: a state at or past the limit
/// stops the step with [`TerminationReason::MaxIter`] before any criterion
/// or the solver is consulted, and nothing moves.
pub proof fn lemma_limit_checked_first<P, S: State, So: Solver<P, S>>(
    problem: P,
    before: S,
    after: S,
    solver_before: So,
    solver_after: So,
    criteria_before: Seq<Box<dyn TerminationCriterion<S>>>,
    criteria_after: Seq<Box<dyn TerminationCriterion<S>>>,
    max_iter: u64,
    outcome: StepOutcome,
    results: Seq<Option<TerminationReason>>,
    verdict: Option<TerminationReason>,
    advanced: Option<(S, Option<TerminationReason>)>,
)
    requires
        one_step(
            problem,
            before,
            after,
            solver_before,
            solver_after,
            criteria_before,
            criteria_after,
            max_iter,
            outcome,
            results,
            verdict,
            advanced,
        ),
        before.spec_iter() >= max_iter,
    ensures
        outcome == StepOutcome::Stopped(TerminationReason::MaxIter),
        results.len() == 0,
        after == before,
        solver_after == solver_before,
        criteria_after == criteria_before,
{
}

/// A step counts an iteration exactly when it completes: `Continue` adds
/// one to the counter, a stop leaves it as it was.
pub proof fn lemma_counter_counts_completed_steps<P, S: State, So: Solver<P, S>>(
    problem: P,
    before: S,
    after: S,
    solver_before: So,
    solver_after: So,
    criteria_before: Seq<Box<dyn TerminationCriterion<S>>>,
    criteria_after: Seq<Box<dyn TerminationCriterion<S>>>,
    max_iter: u64,
    outcome: StepOutcome,
    results: Seq<Option<TerminationReason>>,
    verdict: Option<TerminationReason>,
    advanced: Option<(S, Option<TerminationReason>)>,
)
    requires
        one_step(
            problem,
            before,
            after,
            solver_before,
            solver_after,
            criteria_before,
            criteria_after,
            max_iter,
            outcome,
            results,
            verdict,
            advanced,
        ),
    ensures
        outcome == StepOutcome::Continue ==> after.spec_iter() == before.spec_iter() + 1
            && before.spec_iter() < max_iter,
        outcome is Stopped ==> after.spec_iter() == before.spec_iter(),
{
}


/// In a run with no registered criteria, every step that continued added
/// one to the counter: step `i` starts at the initial count plus `i`, below
/// the limit, with still no criteria.
proof fn lemma_run_counts_steps<P, S: State, So: Solver<P, S>>(
    t: RunTrace<S, So>,
    problem: P,
    state: S,
    solver: So,
    max_iter: u64,
    result: OptimizationResult<S>,
    i: int,
)
    requires
        run_trace(t, problem, state, solver, Seq::empty(), max_iter, result),
        0 <= i < t.steps(),
    ensures
        t.states[i].spec_iter() == state.spec_iter() + i,
        t.criteria[i].len() == 0,
        i > 0 ==> t.states[i - 1].spec_iter() < max_iter,
    decreases i,
{
    if i > 0 {
        lemma_run_counts_steps(t, problem, state, solver, max_iter, result, i - 1);
        assert(trace_step(t, problem, max_iter, i - 1, StepOutcome::Continue));
    }
}

/// The iteration limit is reached exactly: with no criteria registered, a
/// solver whose hook never fires and whose iterations never stop the run
/// runs until the counter equals the limit, and stops there with
/// [`TerminationReason::MaxIter`].
pub proof fn lemma_run_reaches_limit<P, S: State, So: Solver<P, S>>(
    t: RunTrace<S, So>,
    problem: P,
    state: S,
    solver: So,
    max_iter: u64,
    result: OptimizationResult<S>,
)
    requires
        initialized_run(t, problem, state, solver, Seq::empty(), max_iter, result),
        state.spec_iter() <= max_iter,
        forall|sv: So, s: S, x: Option<TerminationReason>| #[trigger]
            sv.may_terminate(&s, x) ==> x is None,
        forall|sv: So, s: S, a: S, x: Option<TerminationReason>, sa: So| #[trigger]
            sv.may_advance(&problem, s, a, x, &sa) ==> x is None,
    ensures
        result.reason == TerminationReason::MaxIter,
        result.state.spec_iter() == max_iter,
{
    let k = t.steps() - 1;
    lemma_run_counts_steps(t, problem, t.states[0], t.solvers[0], max_iter, result, k);
    assert(trace_step(t, problem, max_iter, k, StepOutcome::Stopped(result.reason)));
    let before = t.states[k];
    if before.spec_iter() >= max_iter {
        assert(result.state == before);
        if k > 0 {
            lemma_run_counts_steps(t, problem, t.states[0], t.solvers[0], max_iter, result, k - 1);
        }
    } else {
        assert(t.checks[k].len() == 0);
        assert(reported(t.checks[k]) is None);
        assert(t.solvers[k].may_terminate(&before, t.verdicts[k]));
        let adv = t.advances[k].unwrap();
        assert(t.solvers[k].may_advance(&problem, before, adv.0, adv.1, &t.solvers[k + 1]));
        assert(false);
    }
}

/// A solver hook that always fires stops the run before any step: with no
/// criteria registered and the initial count below the limit, the run
/// ends with the hook's reason on the state `init` returned.
pub proof fn lemma_run_hook_stops_at_start<P, S: State, So: Solver<P, S>>(
    t: RunTrace<S, So>,
    problem: P,
    state: S,
    solver: So,
    max_iter: u64,
    result: OptimizationResult<S>,
    reason: TerminationReason,
)
    requires
        initialized_run(t, problem, state, solver, Seq::empty(), max_iter, result),
        state.spec_iter() < max_iter,
        forall|sv: So, s: S, x: Option<TerminationReason>| #[trigger]
            sv.may_terminate(&s, x) ==> x == Some(reason),
    ensures
        result.reason == reason,
        result.state == t.states[0],
        solver.may_init(&problem, state, result.state, &t.solvers[0]),
        result.state.spec_iter() == state.spec_iter(),
{
    let s0 = t.states[0];
    if t.steps() > 1 {
        assert(trace_step(t, problem, max_iter, 0, StepOutcome::Continue));
        assert(t.checks[0].len() == 0);
        assert(reported(t.checks[0]) is None);
        assert(t.solvers[0].may_terminate(&s0, t.verdicts[0]));
        assert(false);
    }
    assert(trace_step(t, problem, max_iter, 0, StepOutcome::Stopped(result.reason)));
    assert(t.checks[0].len() == 0);
    assert(reported(t.checks[0]) is None);
    assert(t.solvers[0].may_terminate(&s0, t.verdicts[0]));
}

/// First report wins over the whole run: when a criterion reports at the
/// checks of some step (below the limit), that step is the last, the run
/// ends with that criterion's reason on the state the step started from,
/// every earlier criterion of that step answered `None`, and the criteria
/// after it were not consulted.
pub proof fn lemma_run_stops_at_first_report<P, S: State, So: Solver<P, S>>(
    t: RunTrace<S, So>,
    problem: P,
    state: S,
    solver: So,
    criteria: Seq<Box<dyn TerminationCriterion<S>>>,
    max_iter: u64,
    result: OptimizationResult<S>,
    i: int,
    k: int,
)
    requires
        run_trace(t, problem, state, solver, criteria, max_iter, result),
        0 <= i < t.steps(),
        t.states[i].spec_iter() < max_iter,
        0 <= k < t.checks[i].len(),
        t.checks[i][k] is Some,
    ensures
        i == t.steps() - 1,
        k == t.checks[i].len() - 1,
        result.reason == t.checks[i][k]->0,
        result.state == t.states[i],
        forall|j: int| 0 <= j < k ==> t.checks[i][j] is None,
        forall|j: int|
            k < j < t.criteria[i].len() ==> t.criteria[i + 1][j] == t.criteria[i][j],
{
    if i < t.steps() - 1 {
        assert(trace_step(t, problem, max_iter, i, StepOutcome::Continue));
        if k < t.checks[i].len() - 1 {
            assert(t.checks[i][k] is None);
        }
        assert(false);
    }
    assert(trace_step(t, problem, max_iter, i, StepOutcome::Stopped(result.reason)));
    lemma_first_report_wins(
        problem,
        t.states[i],
        t.states[i + 1],
        t.solvers[i],
        t.solvers[i + 1],
        t.criteria[i],
        t.criteria[i + 1],
        max_iter,
        StepOutcome::Stopped(result.reason),
        t.checks[i],
        t.verdicts[i],
        t.advances[i],
        k,
    );
}

/// A reason reported by `next_iter` ends the run: the step in which the
/// solver reported it is the last, the run ends with that reason, and its
/// state is the one `next_iter` returned, with the interrupted iteration
/// not counted.
pub proof fn lemma_run_stops_on_solver_report<P, S: State, So: Solver<P, S>>(
    t: RunTrace<S, So>,
    problem: P,
    state: S,
    solver: So,
    criteria: Seq<Box<dyn TerminationCriterion<S>>>,
    max_iter: u64,
    result: OptimizationResult<S>,
    i: int,
)
    requires
        run_trace(t, problem, state, solver, criteria, max_iter, result),
        0 <= i < t.steps(),
        t.advances[i] matches Some(adv) && adv.1 is Some,
    ensures
        i == t.steps() - 1,
        result.reason == t.advances[i].unwrap().1.unwrap(),
        result.state == t.advances[i].unwrap().0,
        result.state.spec_iter() == t.states[i].spec_iter(),
{
    if i < t.steps() - 1 {
        assert(trace_step(t, problem, max_iter, i, StepOutcome::Continue));
        assert(false);
    }
    assert(trace_step(t, problem, max_iter, i, StepOutcome::Stopped(result.reason)));
}

/// The solver's methods answer deterministically on `problem`: `init` and
/// `next_iter` have one possible outcome (state, reason and solver after)
/// for a given solver and state, and the hook one answer.
pub open spec fn solver_deterministic<P, S: State, So: Solver<P, S>>(problem: P) -> bool {
    &&& forall|sv: So, s: S, a1: S, a2: S, v1: So, v2: So|
        #![trigger sv.may_init(&problem, s, a1, &v1), sv.may_init(&problem, s, a2, &v2)]
        sv.may_init(&problem, s, a1, &v1) && sv.may_init(&problem, s, a2, &v2) ==> a1 == a2 && v1
            == v2
    &&& forall|
        sv: So,
        s: S,
        a1: S,
        a2: S,
        x1: Option<TerminationReason>,
        x2: Option<TerminationReason>,
        v1: So,
        v2: So,
    |
        #![trigger sv.may_advance(&problem, s, a1, x1, &v1), sv.may_advance(&problem, s, a2, x2, &v2)]
        sv.may_advance(&problem, s, a1, x1, &v1) && sv.may_advance(&problem, s, a2, x2, &v2) ==> a1
            == a2 && x1 == x2 && v1 == v2
    &&& forall|sv: So, s: S, x1: Option<TerminationReason>, x2: Option<TerminationReason>|
        #![trigger sv.may_terminate(&s, x1), sv.may_terminate(&s, x2)]
        sv.may_terminate(&s, x1) && sv.may_terminate(&s, x2) ==> x1 == x2
}

/// Counting an iteration has one possible outcome for a given state.
pub open spec fn counting_deterministic<S: State>() -> bool {
    forall|a: S, b1: S, b2: S|
        #![trigger a.spec_counted(&b1), a.spec_counted(&b2)]
        a.spec_counted(&b1) && a.spec_counted(&b2) ==> b1 == b2
}

/// With no criteria registered and deterministic solver and counting, two
/// steps from the same state, solver and limit end the same way.
proof fn lemma_steps_agree<P, S: State, So: Solver<P, S>>(
    problem: P,
    before: S,
    solver_before: So,
    max_iter: u64,
    after1: S,
    solver_after1: So,
    criteria_after1: Seq<Box<dyn TerminationCriterion<S>>>,
    outcome1: StepOutcome,
    results1: Seq<Option<TerminationReason>>,
    verdict1: Option<TerminationReason>,
    advanced1: Option<(S, Option<TerminationReason>)>,
    after2: S,
    solver_after2: So,
    criteria_after2: Seq<Box<dyn TerminationCriterion<S>>>,
    outcome2: StepOutcome,
    results2: Seq<Option<TerminationReason>>,
    verdict2: Option<TerminationReason>,
    advanced2: Option<(S, Option<TerminationReason>)>,
)
    requires
        solver_deterministic::<P, S, So>(problem),
        counting_deterministic::<S>(),
        one_step(
            problem,
            before,
            after1,
            solver_before,
            solver_after1,
            Seq::empty(),
            criteria_after1,
            max_iter,
            outcome1,
            results1,
            verdict1,
            advanced1,
        ),
        one_step(
            problem,
            before,
            after2,
            solver_before,
            solver_after2,
            Seq::empty(),
            criteria_after2,
            max_iter,
            outcome2,
            results2,
            verdict2,
            advanced2,
        ),
    ensures
        outcome1 == outcome2,
        after1 == after2,
        solver_after1 == solver_after2,
        criteria_after1 == criteria_after2,
        criteria_after1.len() == 0,
{
    assert(criteria_after1 =~= Seq::<Box<dyn TerminationCriterion<S>>>::empty());
    assert(criteria_after2 =~= Seq::<Box<dyn TerminationCriterion<S>>>::empty());
    if before.spec_iter() < max_iter {
        assert(results1.len() == 0 && results2.len() == 0);
        assert(solver_before.may_terminate(&before, verdict1));
        assert(solver_before.may_terminate(&before, verdict2));
        assert(verdict1 == verdict2);
        if verdict1 is None {
            let m1 = advanced1.unwrap();
            let m2 = advanced2.unwrap();
            assert(solver_before.may_advance(&problem, before, m1.0, m1.1, &solver_after1));
            assert(solver_before.may_advance(&problem, before, m2.0, m2.1, &solver_after2));
            assert(m1 == m2);
            if m1.1 is None {
                assert(m1.0.spec_counted(&after1));
                assert(m1.0.spec_counted(&after2));
            }
        }
    }
}

/// Two records of runs from the same start agree step by step.
proof fn lemma_traces_agree_upto<P, S: State, So: Solver<P, S>>(
    t1: RunTrace<S, So>,
    t2: RunTrace<S, So>,
    problem: P,
    state: S,
    solver: So,
    max_iter: u64,
    r1: OptimizationResult<S>,
    r2: OptimizationResult<S>,
    i: int,
)
    requires
        solver_deterministic::<P, S, So>(problem),
        counting_deterministic::<S>(),
        run_trace(t1, problem, state, solver, Seq::empty(), max_iter, r1),
        run_trace(t2, problem, state, solver, Seq::empty(), max_iter, r2),
        0 <= i < t1.steps(),
        i < t2.steps(),
    ensures
        t1.states[i] == t2.states[i],
        t1.solvers[i] == t2.solvers[i],
        t1.criteria[i] == t2.criteria[i],
        t1.criteria[i].len() == 0,
    decreases i,
{
    if i == 0 {
        assert(t1.criteria[0] =~= Seq::<Box<dyn TerminationCriterion<S>>>::empty());
    } else {
        lemma_traces_agree_upto(t1, t2, problem, state, solver, max_iter, r1, r2, i - 1);
        let j = i - 1;
        assert(trace_step(t1, problem, max_iter, j, StepOutcome::Continue));
        assert(trace_step(t2, problem, max_iter, j, StepOutcome::Continue));
        assert(t1.criteria[j] =~= Seq::<Box<dyn TerminationCriterion<S>>>::empty());
        lemma_steps_agree(
            problem,
            t1.states[j],
            t1.solvers[j],
            max_iter,
            t1.states[i],
            t1.solvers[i],
            t1.criteria[i],
            StepOutcome::Continue,
            t1.checks[j],
            t1.verdicts[j],
            t1.advances[j],
            t2.states[i],
            t2.solvers[i],
            t2.criteria[i],
            StepOutcome::Continue,
            t2.checks[j],
            t2.verdicts[j],
            t2.advances[j],
        );
    }
}

/// A run is a function of its configuration when the solver and the
/// counting are deterministic and no criterion is registered: any two runs
/// on the same problem from the same state, solver and limit end with the
/// same result. So [`Executor::run`], [`Executor::into_stepper`] followed
/// by [`Stepper::run_to_end`], and [`run_loop`] give the same result there,
/// each being such a run ([`run_result`]).
pub proof fn lemma_runs_agree<P, S: State, So: Solver<P, S>>(
    problem: P,
    state: S,
    solver: So,
    max_iter: u64,
    r1: OptimizationResult<S>,
    r2: OptimizationResult<S>,
)
    requires
        solver_deterministic::<P, S, So>(problem),
        counting_deterministic::<S>(),
        run_result(problem, state, solver, Seq::empty(), max_iter, r1),
        run_result(problem, state, solver, Seq::empty(), max_iter, r2),
    ensures
        r1 == r2,
{
    let t1 = choose|t: RunTrace<S, So>|
        #[trigger] initialized_run(t, problem, state, solver, Seq::empty(), max_iter, r1);
    let t2 = choose|t: RunTrace<S, So>|
        #[trigger] initialized_run(t, problem, state, solver, Seq::empty(), max_iter, r2);
    assert(solver.may_init(&problem, state, t1.states[0], &t1.solvers[0]));
    assert(solver.may_init(&problem, state, t2.states[0], &t2.solvers[0]));
    assert(t1.states[0] == t2.states[0] && t1.solvers[0] == t2.solvers[0]);
    let s0 = t1.states[0];
    let v0 = t1.solvers[0];
    let k1 = t1.steps() - 1;
    let k2 = t2.steps() - 1;
    let k = if k1 < k2 {
        k1
    } else {
        k2
    };
    lemma_traces_agree_upto(t1, t2, problem, s0, v0, max_iter, r1, r2, k);
    let o1 = if k == k1 {
        StepOutcome::Stopped(r1.reason)
    } else {
        StepOutcome::Continue
    };
    let o2 = if k == k2 {
        StepOutcome::Stopped(r2.reason)
    } else {
        StepOutcome::Continue
    };
    assert(trace_step(t1, problem, max_iter, k, o1));
    assert(trace_step(t2, problem, max_iter, k, o2));
    assert(t1.criteria[k] =~= Seq::<Box<dyn TerminationCriterion<S>>>::empty());
    lemma_steps_agree(
        problem,
        t1.states[k],
        t1.solvers[k],
        max_iter,
        t1.states[k + 1],
        t1.solvers[k + 1],
        t1.criteria[k + 1],
        o1,
        t1.checks[k],
        t1.verdicts[k],
        t1.advances[k],
        t2.states[k + 1],
        t2.solvers[k + 1],
        t2.criteria[k + 1],
        o2,
        t2.checks[k],
        t2.verdicts[k],
        t2.advances[k],
    );
    assert(k1 == k2);
}
} // verus!
