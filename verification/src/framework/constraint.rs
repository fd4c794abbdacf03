//! Constraints describe the problem, not the executor: solvers that need
//! box bounds bind on [`BoxConstrained`], so handing them an unconstrained
//! problem is a compile error.

use vstd::prelude::*;

use crate::framework::problem::CostFunction;

verus! {

/// Box (interval) bounds on the parameter, of the same shape as the
/// parameter, with `lower[i] ≤ upper[i]`.
pub trait BoxConstrained: CostFunction {
    /// Lower bounds.
    fn lower(&self) -> &Self::Param;
    /// Upper bounds.
    fn upper(&self) -> &Self::Param;
}

} // verus!
