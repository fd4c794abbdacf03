use basin::{
    run_loop, CostFunction, Executor, Gradient, GradientState, MaxCostEvals, MaxGradientEvals,
    MaxIter, MaxTime, Solver, State, StepOutcome, TerminationCriterion, TerminationReason,
};
use std::time::Duration;

/// f(x) = ½ ‖x‖² — convex quadratic with minimum at origin, gradient = x.
struct Quadratic;

impl CostFunction for Quadratic {
    type Param = Vec<f64>;
    type Output = f64;

    fn cost(&self, x: &Vec<f64>) -> f64 {
        0.5 * x.iter().map(|v| v * v).sum::<f64>()
    }
    fn cost_at(&self, param: &<Self as CostFunction>::Param) -> <Self as CostFunction>::Output {
        CostFunction::cost(self, param)
    }
}

impl Gradient for Quadratic {
    type Param = Vec<f64>;
    type Gradient = Vec<f64>;

    fn gradient(&self, x: &Vec<f64>) -> Vec<f64> {
        x.clone()
    }
    fn gradient_at(&self, param: &<Self as Gradient>::Param) -> <Self as Gradient>::Gradient {
        Gradient::gradient(self, param)
    }
}

/// A single-iterate state with cached cost and gradient.
struct BasicState {
    param: Vec<f64>,
    cost: Option<f64>,
    gradient: Option<Vec<f64>>,
    iter: u64,
    cost_evals: u64,
    gradient_evals: u64,
}

impl BasicState {
    fn new(param: Vec<f64>) -> Self {
        BasicState {
            param,
            cost: None,
            gradient: None,
            iter: 0,
            cost_evals: 0,
            gradient_evals: 0,
        }
    }
}

impl State for BasicState {
    type Param = Vec<f64>;
    type Float = f64;

    fn spec_iter(&self) -> u64 {
        self.iter
    }

    fn spec_cost_evals(&self) -> u64 {
        self.cost_evals
    }

    fn spec_param(&self) -> &Vec<f64> {
        &self.param
    }

    fn spec_cost(&self) -> f64 {
        self.cost()
    }

    fn iter(&self) -> u64 {
        self.iter
    }

    fn increment_iter(&mut self) {
        self.iter += 1;
    }

    fn param(&self) -> &Vec<f64> {
        &self.param
    }

    fn cost(&self) -> f64 {
        self.cost.expect("cost read before init")
    }

    fn cost_evals(&self) -> u64 {
        self.cost_evals
    }

    fn increment_cost_evals(&mut self, n: u64) {
        self.cost_evals += n;
    }

    fn spec_counted(&self, _after: &Self) -> bool {
        true
    }
}

impl GradientState for BasicState {
    fn spec_gradient_evals(&self) -> u64 {
        self.gradient_evals
    }

    fn gradient(&self) -> Option<&Vec<f64>> {
        self.gradient.as_ref()
    }

    fn gradient_evals(&self) -> u64 {
        self.gradient_evals
    }
}

/// Fixed-step steepest descent.
struct GradientDescent {
    alpha: f64,
}

impl GradientDescent {
    fn new(alpha: f64) -> Self {
        GradientDescent { alpha }
    }
}

impl Solver<Quadratic, BasicState> for GradientDescent {
    fn init(&mut self, problem: &Quadratic, mut state: BasicState) -> BasicState {
        state.cost = Some(problem.cost(&state.param));
        state.gradient = Some(problem.gradient(&state.param));
        state.cost_evals += 1;
        state.gradient_evals += 1;
        state
    }

    fn next_iter(
        &mut self,
        problem: &Quadratic,
        mut state: BasicState,
    ) -> (BasicState, Option<TerminationReason>) {
        let g = state.gradient.take().expect("init ran");
        for (x, gi) in state.param.iter_mut().zip(g.iter()) {
            *x -= self.alpha * gi;
        }
        state.cost = Some(problem.cost(&state.param));
        state.gradient = Some(problem.gradient(&state.param));
        state.cost_evals += 1;
        state.gradient_evals += 1;
        (state, None)
    }

    fn terminate(&self, _state: &BasicState) -> Option<TerminationReason> {
        None
    }

    fn may_init(
        &self,
        _problem: &Quadratic,
        _state: BasicState,
        _after: BasicState,
        _solver_after: &Self,
    ) -> bool {
        true
    }

    fn may_advance(
        &self,
        _problem: &Quadratic,
        _state: BasicState,
        _after: BasicState,
        _reason: Option<TerminationReason>,
        _solver_after: &Self,
    ) -> bool {
        true
    }

    fn may_terminate(&self, _state: &BasicState, _r: Option<TerminationReason>) -> bool {
        true
    }
}

#[test]
fn max_iter_field_default_is_one_thousand() {
    let result = Executor::new(
        Quadratic,
        GradientDescent::new(0.001),
        BasicState::new(vec![10.0, 10.0]),
    )
    .run();

    assert_eq!(result.reason, TerminationReason::MaxIter);
    assert_eq!(result.iter(), 1_000);
}

#[test]
fn explicit_max_iter_criterion_works_alongside_default() {
    let result = Executor::new(
        Quadratic,
        GradientDescent::new(0.001),
        BasicState::new(vec![10.0, 10.0]),
    )
    .terminate_on(Box::new(MaxIter(5)))
    .run();

    assert_eq!(result.reason, TerminationReason::MaxIter);
    assert_eq!(result.iter(), 5);
}

#[test]
fn max_time_eventually_fires() {
    let result = Executor::new(
        Quadratic,
        GradientDescent::new(0.001),
        BasicState::new(vec![1e6, 1e6, 1e6]),
    )
    .max_iter(u64::MAX)
    .terminate_on(Box::new(MaxTime::new(Duration::from_millis(50).as_nanos())))
    .run();

    assert_eq!(result.reason, TerminationReason::MaxTime);
}

/// Solver that always reports converged via the `terminate` hook.
struct AlwaysConverged;

impl Solver<Quadratic, BasicState> for AlwaysConverged {
    fn next_iter(
        &mut self,
        _problem: &Quadratic,
        state: BasicState,
    ) -> (BasicState, Option<TerminationReason>) {
        (state, None)
    }

    fn terminate(&self, _state: &BasicState) -> Option<TerminationReason> {
        Some(TerminationReason::SolverConverged)
    }

    fn init(&mut self, _problem: &Quadratic, state: BasicState) -> BasicState {
        state
    }

    fn may_init(
        &self,
        _problem: &Quadratic,
        _state: BasicState,
        _after: BasicState,
        _solver_after: &Self,
    ) -> bool {
        true
    }

    fn may_advance(
        &self,
        _problem: &Quadratic,
        _state: BasicState,
        _after: BasicState,
        _reason: Option<TerminationReason>,
        _solver_after: &Self,
    ) -> bool {
        true
    }

    fn may_terminate(&self, _state: &BasicState, _r: Option<TerminationReason>) -> bool {
        true
    }
}

#[test]
fn solver_terminate_hook_is_honored() {
    let result = Executor::new(Quadratic, AlwaysConverged, BasicState::new(vec![1.0, 2.0])).run();

    assert_eq!(result.reason, TerminationReason::SolverConverged);
    assert_eq!(result.iter(), 0);
}

/// Solver that completes one full iteration, then reports a mid-iter
/// failure on the next call.
struct FailsOnSecondCall {
    calls: u64,
}

impl Solver<Quadratic, BasicState> for FailsOnSecondCall {
    fn next_iter(
        &mut self,
        _problem: &Quadratic,
        state: BasicState,
    ) -> (BasicState, Option<TerminationReason>) {
        self.calls += 1;
        if self.calls >= 2 {
            (state, Some(TerminationReason::SolverFailed))
        } else {
            (state, None)
        }
    }

    fn init(&mut self, _problem: &Quadratic, state: BasicState) -> BasicState {
        state
    }

    fn terminate(&self, _state: &BasicState) -> Option<TerminationReason> {
        None
    }

    fn may_init(
        &self,
        _problem: &Quadratic,
        _state: BasicState,
        _after: BasicState,
        _solver_after: &Self,
    ) -> bool {
        true
    }

    fn may_advance(
        &self,
        _problem: &Quadratic,
        _state: BasicState,
        _after: BasicState,
        _reason: Option<TerminationReason>,
        _solver_after: &Self,
    ) -> bool {
        true
    }

    fn may_terminate(&self, _state: &BasicState, _r: Option<TerminationReason>) -> bool {
        true
    }
}

#[test]
fn solver_can_signal_termination_mid_iter() {
    let result = Executor::new(
        Quadratic,
        FailsOnSecondCall { calls: 0 },
        BasicState::new(vec![1.0, 2.0]),
    )
    .max_iter(100)
    .run();

    assert_eq!(result.reason, TerminationReason::SolverFailed);
    assert_eq!(result.iter(), 1);
}

/// A custom criterion, played through `Box<dyn>`.
struct StopAt(u64);

impl<S: State> TerminationCriterion<S> for StopAt {
    fn check(&mut self, state: &S) -> Option<TerminationReason> {
        (state.iter() == self.0).then_some(TerminationReason::SolverConverged)
    }
}

#[test]
fn custom_termination_criterion() {
    let result = Executor::new(
        Quadratic,
        GradientDescent::new(0.1),
        BasicState::new(vec![5.0, 5.0]),
    )
    .max_iter(1_000)
    .terminate_on(Box::new(StopAt(7)))
    .run();

    assert_eq!(result.reason, TerminationReason::SolverConverged);
    assert_eq!(result.iter(), 7);
}

#[test]
fn cost_evals_matches_iter_for_constant_step_gradient_descent() {
    let result = Executor::new(
        Quadratic,
        GradientDescent::new(0.001),
        BasicState::new(vec![10.0, 10.0]),
    )
    .terminate_on(Box::new(MaxIter(20)))
    .run();

    assert_eq!(result.iter(), 20);
    assert_eq!(result.state.cost_evals(), 21);
}

#[test]
fn max_gradient_evals_fires_before_max_iter() {
    let result = Executor::new(
        Quadratic,
        GradientDescent::new(0.001),
        BasicState::new(vec![10.0, 10.0]),
    )
    .max_iter(10_000)
    .terminate_on(Box::new(MaxGradientEvals(5)))
    .run();

    assert_eq!(result.reason, TerminationReason::MaxGradientEvals);
    assert!(result.state.gradient_evals() >= 5);
}

#[test]
fn max_cost_evals_stops_exactly_at_the_budget() {
    let result = Executor::new(
        Quadratic,
        GradientDescent::new(0.001),
        BasicState::new(vec![10.0, 10.0]),
    )
    .max_iter(10_000)
    .terminate_on(Box::new(MaxCostEvals(25)))
    .run();

    assert_eq!(result.reason, TerminationReason::MaxCostEvals);
    assert_eq!(result.state.cost_evals(), 25);
    assert_eq!(result.iter(), 24);
}

/// Records which criteria ran, to observe the check order.
struct Probe {
    id: u8,
    fire: bool,
    log: std::rc::Rc<std::cell::RefCell<Vec<u8>>>,
}

impl<S> TerminationCriterion<S> for Probe {
    fn check(&mut self, _state: &S) -> Option<TerminationReason> {
        self.log.borrow_mut().push(self.id);
        self.fire.then_some(TerminationReason::CostTolerance)
    }
}

#[test]
fn first_criterion_to_fire_wins_and_later_ones_do_not_run() {
    let log = std::rc::Rc::new(std::cell::RefCell::new(Vec::new()));
    let result = Executor::new(Quadratic, GradientDescent::new(0.1), BasicState::new(vec![1.0]))
        .terminate_on(Box::new(Probe { id: 1, fire: false, log: log.clone() }))
        .terminate_on(Box::new(Probe { id: 2, fire: true, log: log.clone() }))
        .terminate_on(Box::new(Probe { id: 3, fire: true, log: log.clone() }))
        .run();
    assert_eq!(result.reason, TerminationReason::CostTolerance);
    assert_eq!(result.iter(), 0);
    assert_eq!(*log.borrow(), vec![1, 2]);
}

#[test]
fn max_iter_is_checked_before_criteria() {
    let log = std::rc::Rc::new(std::cell::RefCell::new(Vec::new()));
    let result = Executor::new(Quadratic, GradientDescent::new(0.1), BasicState::new(vec![1.0]))
        .max_iter(0)
        .terminate_on(Box::new(Probe { id: 1, fire: true, log: log.clone() }))
        .run();
    assert_eq!(result.reason, TerminationReason::MaxIter);
    assert_eq!(result.iter(), 0);
    assert!(log.borrow().is_empty());
}

#[test]
fn max_iter_setting_replaces_rather_than_stacks() {
    let result = Executor::new(Quadratic, GradientDescent::new(0.1), BasicState::new(vec![1.0]))
        .max_iter(3)
        .max_iter(8)
        .run();
    assert_eq!(result.reason, TerminationReason::MaxIter);
    assert_eq!(result.iter(), 8);
}

#[test]
fn stepper_steps_then_stays_stopped() {
    let mut stepper = Executor::new(
        Quadratic,
        GradientDescent::new(0.5),
        BasicState::new(vec![2.0, -2.0]),
    )
    .max_iter(2)
    .into_stepper();
    assert_eq!(stepper.iter(), 0);
    assert!(stepper.finished().is_none());
    assert_eq!(stepper.step(), StepOutcome::Continue);
    assert_eq!(stepper.iter(), 1);
    assert_eq!(stepper.state().param(), &vec![1.0, -1.0]);
    assert_eq!(stepper.step(), StepOutcome::Continue);
    assert_eq!(stepper.step(), StepOutcome::Stopped(TerminationReason::MaxIter));
    assert_eq!(stepper.step(), StepOutcome::Stopped(TerminationReason::MaxIter));
    assert_eq!(stepper.finished(), Some(&TerminationReason::MaxIter));
    assert_eq!(stepper.iter(), 2);
    let result = stepper.run_to_end();
    assert_eq!(result.reason, TerminationReason::MaxIter);
    assert_eq!(result.iter(), 2);
    assert_eq!(result.param(), &vec![0.5, -0.5]);
    assert_eq!(result.cost(), 0.25);
    assert_eq!(result.cost_evals(), 3);
    let state = result.into_state();
    assert_eq!(state.iter, 2);
}

#[test]
fn stepper_into_state_returns_current_state() {
    let mut stepper = Executor::new(Quadratic, GradientDescent::new(0.5), BasicState::new(vec![4.0]))
        .into_stepper();
    stepper.step();
    let state = stepper.into_state();
    assert_eq!(state.iter, 1);
    assert_eq!(state.param, vec![2.0]);
}

#[test]
fn run_loop_drives_a_borrowed_problem() {
    let problem = Quadratic;
    let mut solver = GradientDescent::new(0.5);
    let mut criteria: Vec<Box<dyn TerminationCriterion<BasicState>>> =
        vec![Box::new(MaxCostEvals(4))];
    let result = run_loop(&problem, BasicState::new(vec![8.0]), &mut solver, &mut criteria, 100);
    assert_eq!(result.reason, TerminationReason::MaxCostEvals);
    assert_eq!(result.iter(), 3);
    assert_eq!(result.param(), &vec![1.0]);
    let again = run_loop(&problem, BasicState::new(vec![8.0]), &mut solver, &mut criteria, 2);
    assert_eq!(again.reason, TerminationReason::MaxIter);
    assert_eq!(again.iter(), 2);
}

#[test]
fn time_limit_fires_once_the_budget_is_used_up() {
    assert_eq!(basin::time_limit_verdict(4, 5), None);
    assert_eq!(basin::time_limit_verdict(5, 5), Some(TerminationReason::MaxTime));
    assert_eq!(basin::time_limit_verdict(6, 5), Some(TerminationReason::MaxTime));
    assert_eq!(basin::time_limit_verdict(0, 0), Some(TerminationReason::MaxTime));
    assert_eq!(basin::time_limit_verdict(u128::MAX - 1, u128::MAX), None);
}

#[test]
fn zero_time_budget_stops_before_the_first_step() {
    let exec = Executor::new(Quadratic, GradientDescent::new(0.1), BasicState::new(vec![1.0]))
        .terminate_on(Box::new(MaxTime::new(Duration::from_secs(0).as_nanos())));
    let r = exec.run();
    assert_eq!(r.reason, TerminationReason::MaxTime);
    assert_eq!(r.iter(), 0);
}

/// Stops when the iterate moved by at most `tol` (Euclidean) since the
/// previous check.
struct ParamTolerance {
    tol: f64,
    last: Option<Vec<f64>>,
}

impl ParamTolerance {
    fn new(tol: f64) -> Self {
        ParamTolerance { tol, last: None }
    }
}

impl TerminationCriterion<BasicState> for ParamTolerance {
    fn check(&mut self, state: &BasicState) -> Option<TerminationReason> {
        let x = state.param().clone();
        let fired = match &self.last {
            Some(prev) => {
                let d2: f64 = prev.iter().zip(x.iter()).map(|(a, b)| (a - b) * (a - b)).sum();
                d2.sqrt() <= self.tol
            }
            None => false,
        };
        self.last = Some(x);
        if fired {
            Some(TerminationReason::ParamTolerance)
        } else {
            None
        }
    }
}

#[test]
fn first_criterion_to_fire_wins() {
    let result = Executor::new(
        Quadratic,
        GradientDescent::new(0.1),
        BasicState::new(vec![1.0, 1.0]),
    )
    .max_iter(1_000)
    .terminate_on(Box::new(ParamTolerance::new(100.0)))
    .run();

    assert_eq!(result.reason, TerminationReason::ParamTolerance);
    assert!(result.iter() < 5);
}

/// A simplex of `n + 1` vertices with their costs, best first.
struct SimplexState {
    vertices: Vec<Vec<f64>>,
    costs: Vec<f64>,
    iter: u64,
    cost_evals: u64,
}

impl SimplexState {
    /// The simplex around `x0` with 5% steps (0.00025 on zero coordinates).
    fn new(x0: Vec<f64>) -> Self {
        let mut vertices = vec![x0.clone()];
        for i in 0..x0.len() {
            let mut v = x0.clone();
            v[i] = if x0[i] != 0.0 { 1.05 * x0[i] } else { 0.00025 };
            vertices.push(v);
        }
        let n = vertices.len();
        SimplexState { vertices, costs: vec![f64::INFINITY; n], iter: 0, cost_evals: 0 }
    }

    fn sort(&mut self) {
        let mut keys: Vec<basin::FloatBits> =
            self.costs.iter().map(|c| basin::FloatBits(c.to_bits())).collect();
        basin::sort_population_ascending(&mut self.vertices, &mut keys);
        self.costs = keys.iter().map(|k| f64::from_bits(k.0)).collect();
    }
}

impl State for SimplexState {
    type Param = Vec<f64>;
    type Float = f64;

    fn spec_iter(&self) -> u64 {
        self.iter
    }

    fn spec_cost_evals(&self) -> u64 {
        self.cost_evals
    }

    fn spec_param(&self) -> &Vec<f64> {
        &self.vertices[0]
    }

    fn spec_cost(&self) -> f64 {
        self.costs[0]
    }

    fn iter(&self) -> u64 {
        self.iter
    }

    fn increment_iter(&mut self) {
        self.iter += 1;
    }

    fn param(&self) -> &Vec<f64> {
        &self.vertices[0]
    }

    fn cost(&self) -> f64 {
        self.costs[0]
    }

    fn cost_evals(&self) -> u64 {
        self.cost_evals
    }

    fn increment_cost_evals(&mut self, n: u64) {
        self.cost_evals += n;
    }

    fn spec_counted(&self, _after: &Self) -> bool {
        true
    }
}

/// Standard Nelder–Mead (α = 1, β = 2, γ = δ = ½), its moves chosen by the
/// library.
struct NelderMead;

fn affine(a: &[f64], b: &[f64], t: f64) -> Vec<f64> {
    a.iter().zip(b.iter()).map(|(x, y)| (1.0 - t) * x + t * y).collect()
}

fn fb(x: f64) -> basin::FloatBits {
    basin::FloatBits(x.to_bits())
}

impl Solver<Quadratic, SimplexState> for NelderMead {
    fn init(&mut self, problem: &Quadratic, mut state: SimplexState) -> SimplexState {
        for i in 0..state.vertices.len() {
            state.costs[i] = problem.cost(&state.vertices[i]);
        }
        state.cost_evals += state.vertices.len() as u64;
        state.sort();
        state
    }

    fn next_iter(
        &mut self,
        problem: &Quadratic,
        mut state: SimplexState,
    ) -> (SimplexState, Option<TerminationReason>) {
        let m = state.vertices.len();
        let n = m - 1;
        let dim = state.vertices[0].len();
        let mut x_bar = vec![0.0; dim];
        for v in &state.vertices[..n] {
            for j in 0..dim {
                x_bar[j] += v[j] / n as f64;
            }
        }
        let (f1, fn_, fnp1) = (state.costs[0], state.costs[n - 1], state.costs[n]);
        let x_r = affine(&x_bar, &state.vertices[n], -1.0);
        let fr = problem.cost(&x_r);
        state.cost_evals += 1;
        let mv = basin::simplex_move(fb(f1), fb(fn_), fb(fnp1), fb(fr));
        let trial = match mv {
            basin::SimplexMove::Reflect => None,
            basin::SimplexMove::Expand => Some(affine(&x_bar, &x_r, 2.0)),
            basin::SimplexMove::ContractOutside => Some(affine(&x_bar, &x_r, 0.5)),
            basin::SimplexMove::ContractInside => Some(affine(&x_bar, &state.vertices[n], 0.5)),
        };
        let trial = trial.map(|x| {
            let f = problem.cost(&x);
            (x, f)
        });
        if trial.is_some() {
            state.cost_evals += 1;
        }
        let ft = trial.as_ref().map_or(fr, |(_, f)| *f);
        match basin::simplex_replacement(mv, fb(fnp1), fb(fr), fb(ft)) {
            basin::SimplexReplacement::Reflected => {
                state.vertices[n] = x_r;
                state.costs[n] = fr;
            }
            basin::SimplexReplacement::Trial => {
                let (x, f) = trial.unwrap();
                state.vertices[n] = x;
                state.costs[n] = f;
            }
            basin::SimplexReplacement::Shrink => {
                let best = state.vertices[0].clone();
                for i in 1..m {
                    let v = affine(&best, &state.vertices[i], 0.5);
                    state.costs[i] = problem.cost(&v);
                    state.vertices[i] = v;
                }
                state.cost_evals += n as u64;
            }
        }
        state.sort();
        (state, None)
    }

    fn terminate(&self, _state: &SimplexState) -> Option<TerminationReason> {
        None
    }

    fn may_init(
        &self,
        _problem: &Quadratic,
        _state: SimplexState,
        _after: SimplexState,
        _solver_after: &Self,
    ) -> bool {
        true
    }

    fn may_advance(
        &self,
        _problem: &Quadratic,
        _state: SimplexState,
        _after: SimplexState,
        _reason: Option<TerminationReason>,
        _solver_after: &Self,
    ) -> bool {
        true
    }

    fn may_terminate(&self, _state: &SimplexState, _r: Option<TerminationReason>) -> bool {
        true
    }
}

#[test]
fn max_cost_evals_fires_before_max_iter() {
    let result = Executor::new(
        Quadratic,
        NelderMead,
        SimplexState::new(vec![5.0, -2.0, 4.0]),
    )
    .max_iter(10_000)
    .terminate_on(Box::new(MaxCostEvals(25)))
    .run();

    assert_eq!(result.reason, TerminationReason::MaxCostEvals);
    assert!(
        result.state.cost_evals() >= 25,
        "cost_evals should have reached the budget: {}",
        result.state.cost_evals()
    );
}

#[test]
fn nelder_mead_decreases_the_best_cost_on_the_quadratic() {
    let result = Executor::new(
        Quadratic,
        NelderMead,
        SimplexState::new(vec![5.0, -2.0, 4.0]),
    )
    .max_iter(200)
    .run();
    assert_eq!(result.reason, TerminationReason::MaxIter);
    assert_eq!(result.iter(), 200);
    assert!(result.cost() < 1e-6, "cost = {}", result.cost());
    for w in result.state.costs.windows(2) {
        assert!(w[0] <= w[1]);
    }
}

#[test]
fn cost_evals_exceeds_iter_for_nelder_mead_shrinks() {
    let result = Executor::new(Quadratic, NelderMead, SimplexState::new(vec![2.0, -3.0]))
        .terminate_on(Box::new(MaxIter(50)))
        .run();

    assert!(result.state.cost_evals() >= result.iter() + 3);
}

#[test]
fn max_iter_n_runs_exactly_n_iterations() {
    for n in [0u64, 1, 7] {
        let r = Executor::new(Quadratic, GradientDescent::new(0.1), BasicState::new(vec![1.0]))
            .max_iter(n)
            .run();
        assert_eq!(r.reason, TerminationReason::MaxIter);
        assert_eq!(r.iter(), n);
    }
}

#[test]
fn run_loop_matches_executor_run() {
    let mut solver = GradientDescent::new(0.25);
    let mut criteria: Vec<Box<dyn TerminationCriterion<BasicState>>> =
        vec![Box::new(MaxCostEvals(6))];
    let looped = run_loop(&Quadratic, BasicState::new(vec![4.0, -2.0]), &mut solver, &mut criteria, 50);
    let executed = Executor::new(Quadratic, GradientDescent::new(0.25), BasicState::new(vec![4.0, -2.0]))
        .max_iter(50)
        .terminate_on(Box::new(MaxCostEvals(6)))
        .run();
    assert_eq!(looped.reason, executed.reason);
    assert_eq!(looped.iter(), executed.iter());
    assert_eq!(looped.param(), executed.param());
    assert_eq!(looped.cost_evals(), executed.cost_evals());
}
