//! Problem traits the user implements about their objective. Solvers bind
//! on whichever subset they need (e.g. gradient descent requires
//! [`CostFunction`] *and* [`Gradient`]; Nelder-Mead only needs
//! [`CostFunction`]).
//!
//! Every evaluation must be a *pure* function of the parameter: solvers
//! cache results, and termination criteria assume a cached value matches
//! what a fresh evaluation would return.

use vstd::prelude::*;

verus! {

/// Scalar-valued objective `f(x): Param → Output`.
pub trait CostFunction {
    /// The parameter type the objective is defined over.
    type Param;
    /// Scalar cost type.
    type Output;

    /// The objective's value at `param`. Evaluation is a pure function of
    /// the parameter, so this is what every call of [`cost`](Self::cost)
    /// returns there. An implementation written outside Verus supplies it
    /// as an ordinary method returning what `cost` returns.
    spec fn cost_at(&self, param: &Self::Param) -> Self::Output;

    /// Evaluate the objective at `param`.
    fn cost(&self, param: &Self::Param) -> (r: Self::Output)
        ensures
            r == self.cost_at(param),
    ;
}

/// Analytic gradient `∇f(x): Param → Gradient`, of the same shape as
/// `param`.
pub trait Gradient {
    /// The parameter type the gradient is defined over.
    type Param;
    /// The gradient type. Typically the same as `Param`.
    type Gradient;

    /// The gradient's value at `param`, what every call of
    /// [`gradient`](Self::gradient) returns there (see
    /// [`CostFunction::cost_at`]).
    spec fn gradient_at(&self, param: &Self::Param) -> Self::Gradient;

    /// Evaluate the gradient at `param`.
    fn gradient(&self, param: &Self::Param) -> (r: Self::Gradient)
        ensures
            r == self.gradient_at(param),
    ;
}

/// Vector-valued residual `r(x): Param → Output` for least-squares
/// problems minimizing `½‖r(x)‖²`. The number of residuals is fixed for a
/// given problem.
pub trait Residual {
    /// The parameter type the residual is defined over.
    type Param;
    /// The residual vector type.
    type Output;

    /// The residual's value at `param`, what every call of
    /// [`residual`](Self::residual) returns there (see
    /// [`CostFunction::cost_at`]).
    spec fn residual_at(&self, param: &Self::Param) -> Self::Output;

    /// Evaluate the residual at `param`.
    fn residual(&self, param: &Self::Param) -> (r: Self::Output)
        ensures
            r == self.residual_at(param),
    ;
}

/// Analytic Jacobian `J(x) = ∂r/∂x`, an `m × n` matrix of fixed shape.
pub trait Jacobian {
    /// The parameter type the Jacobian is defined over.
    type Param;
    /// The Jacobian matrix type, shape `m × n`.
    type Output;

    /// The Jacobian's value at `param`, what every call of
    /// [`jacobian`](Self::jacobian) returns there (see
    /// [`CostFunction::cost_at`]).
    spec fn jacobian_at(&self, param: &Self::Param) -> Self::Output;

    /// Evaluate the Jacobian at `param`.
    fn jacobian(&self, param: &Self::Param) -> (r: Self::Output)
        ensures
            r == self.jacobian_at(param),
    ;
}

/// Analytic Hessian `H(x) = ∇²f(x)`, a symmetric `n × n` matrix.
pub trait Hessian {
    /// The parameter type the Hessian is defined over.
    type Param;
    /// The Hessian matrix type.
    type Output;

    /// The Hessian's value at `param`, what every call of
    /// [`hessian`](Self::hessian) returns there (see
    /// [`CostFunction::cost_at`]).
    spec fn hessian_at(&self, param: &Self::Param) -> Self::Output;

    /// Evaluate the Hessian at `param`.
    fn hessian(&self, param: &Self::Param) -> (r: Self::Output)
        ensures
            r == self.hessian_at(param),
    ;
}

/// Fused cost + gradient evaluation `(f(x), ∇f(x))` from one call. The
/// default delegates to two separate calls; override it to share work,
/// returning the same values.
/// One fused call counts as one cost *and* one gradient evaluation.
pub trait CostAndGradient: CostFunction + Gradient<Param = <Self as CostFunction>::Param> {
    /// Evaluate cost *and* gradient at `param` in one call: the values
    /// the separate calls give there.
    fn cost_and_gradient(&self, param: &<Self as CostFunction>::Param) -> (r: (
        <Self as CostFunction>::Output,
        <Self as Gradient>::Gradient,
    ))
        ensures
            r.0 == self.cost_at(param),
            r.1 == self.gradient_at(param),
    {
        (CostFunction::cost(self, param), Gradient::gradient(self, param))
    }
}

/// Fused cost + gradient + Hessian evaluation from one call. Same opt-in
/// pattern as [`CostAndGradient`].
pub trait CostAndGradientAndHessian: CostFunction + Gradient<
    Param = <Self as CostFunction>::Param,
> + Hessian<Param = <Self as CostFunction>::Param> {
    /// Evaluate cost, gradient, and Hessian at `param` in one call: the
    /// values the separate calls give there.
    fn cost_and_gradient_and_hessian(&self, param: &<Self as CostFunction>::Param) -> (r: (
        <Self as CostFunction>::Output,
        <Self as Gradient>::Gradient,
        <Self as Hessian>::Output,
    ))
        ensures
            r.0 == self.cost_at(param),
            r.1 == self.gradient_at(param),
            r.2 == self.hessian_at(param),
    {
        (
            CostFunction::cost(self, param),
            Gradient::gradient(self, param),
            Hessian::hessian(self, param),
        )
    }
}

/// Fused residual + Jacobian evaluation `(r(x), J(x))` from one call —
/// the least-squares analogue of [`CostAndGradient`].
pub trait ResidualAndJacobian: Residual + Jacobian<Param = <Self as Residual>::Param> {
    /// Evaluate residual *and* Jacobian at `param` in one call: the values
    /// the separate calls give there.
    fn residual_and_jacobian(&self, param: &<Self as Residual>::Param) -> (r: (
        <Self as Residual>::Output,
        <Self as Jacobian>::Output,
    ))
        ensures
            r.0 == self.residual_at(param),
            r.1 == self.jacobian_at(param),
    {
        (Residual::residual(self, param), Jacobian::jacobian(self, param))
    }
}

} // verus!
