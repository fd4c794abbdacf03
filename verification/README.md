# basin

The control layer of a numerical optimization library, verified with Verus.

- `src/` — the verified library (`basin`):
  - `framework/problem.rs`, `constraint.rs`, `state.rs`, `solver.rs`: the
    traits a user implements (objective, gradient, residual, Jacobian, box
    bounds, solver state, solver).
  - `framework/executor.rs`: the driver — `Executor`, `Stepper`, `run_loop` —
    with the canonical per-iteration ordering (iteration limit, then the
    registered criteria in insertion order, then the solver's own hook, then
    one `next_iter`) stated as `one_step` and proved for every step.
  - `framework/termination.rs`: termination reasons and the counting and
    wall-clock criteria.
  - `framework/float.rs`: IEEE-754 binary64 values as bit patterns, with
    exact comparison, ranking (NaN last) and `clamp`.
  - `framework/population.rs`: stable joint sorting of candidates by cost,
    in-place permutation, elitist selection.
  - `framework/simplex.rs`: the move decisions of a Nelder–Mead iteration.
  - `framework/math.rs`: the vector and linear-algebra capability traits.
- `app/` — the floating-point layer, ordinary Rust on top of the library:
  concrete states, tolerance criteria, line searches, the solvers
  (gradient descent, Nelder–Mead, random search, Gauss–Newton,
  Levenberg–Marquardt, BFGS, CMA-ES, CMA-ES with injection), test
  problems, a dense matrix, and the compact L-BFGS kernels.
- `tests/` — tests of the library.
