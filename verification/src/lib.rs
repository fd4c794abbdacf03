//! basin — the control layer of a numerical optimization library.
//!
//! The framework lives in [`framework`]: the problem traits a user implements
//! ([`CostFunction`], [`Gradient`], [`Residual`], [`Jacobian`], ...), the
//! state shape a solver iterates over ([`State`], [`GradientState`]), the
//! [`Solver`] trait, the pluggable termination layer
//! ([`TerminationCriterion`]) and the driver that runs them ([`Executor`],
//! [`Stepper`], [`run_loop`]).
//!
//! Floating-point values that the library itself inspects (costs it ranks,
//! bounds it clamps to) are carried as IEEE-754 binary64 bit patterns
//! ([`FloatBits`]), so every comparison the library makes is exact and
//! proved.

pub mod framework;

pub use crate::framework::constraint::BoxConstrained;
pub use crate::framework::executor::{run_loop, Executor, OptimizationResult, StepOutcome, Stepper};
pub use crate::framework::float::FloatBits;
pub use crate::framework::math::{
    AddDiagonalVectorInPlace, ClampInPlace, ComponentMaxAssign, ComponentMulAssign, GramMatrix,
    LinearSolveError, LinearSolveLstsq, LinearSolveSpd, MatDiagonal, MatTransposeVec, MatVec,
    MatrixFromDiagonal, MatrixIdentity, NegInPlace, ScaledAdd, SymmetricEigen,
    SymmetricEigenError, VectorLen,
};
pub use crate::framework::population::{
    apply_permutation, elitist_selection, sort_population_ascending,
};
pub use crate::framework::problem::{
    CostAndGradient, CostAndGradientAndHessian, CostFunction, Gradient, Hessian, Jacobian,
    Residual, ResidualAndJacobian,
};
pub use crate::framework::simplex::{
    simplex_move, simplex_replacement, SimplexMove, SimplexReplacement,
};
pub use crate::framework::solver::Solver;
pub use crate::framework::state::{GradientState, State};
pub use crate::framework::termination::{
    time_limit_verdict, MaxCostEvals, MaxGradientEvals, MaxIter, MaxTime, TerminationCriterion,
    TerminationReason,
};
