//! Framework layer: problem traits, state shape, solver trait, termination
//! criteria, the iteration driver, and the exact primitives (IEEE-754
//! comparison, clamping, population ordering, simplex decisions) the
//! solvers share.

pub mod constraint;
pub mod executor;
pub mod float;
pub mod math;
pub mod population;
pub mod problem;
pub mod simplex;
pub mod solver;
pub mod state;
pub mod termination;
