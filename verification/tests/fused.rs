use std::cell::Cell;
use std::rc::Rc;

use basin::{
    CostAndGradient, CostAndGradientAndHessian, CostFunction, Gradient, Hessian, Jacobian,
    Residual, ResidualAndJacobian,
};
use nalgebra::{DMatrix, DVector};

struct Sphere;
impl CostFunction for Sphere {
    type Param = Vec<f64>;
    type Output = f64;
    fn cost(&self, x: &Vec<f64>) -> f64 {
        x.iter().map(|xi| xi * xi).sum()
    }
    fn cost_at(&self, param: &<Self as CostFunction>::Param) -> <Self as CostFunction>::Output {
        CostFunction::cost(self, param)
    }
}
impl Gradient for Sphere {
    type Param = Vec<f64>;
    type Gradient = Vec<f64>;
    fn gradient(&self, x: &Vec<f64>) -> Vec<f64> {
        x.iter().map(|xi| 2.0 * xi).collect()
    }
    fn gradient_at(&self, param: &<Self as Gradient>::Param) -> <Self as Gradient>::Gradient {
        Gradient::gradient(self, param)
    }
}
impl CostAndGradient for Sphere {}

#[test]
fn default_fused_matches_separate_calls() {
    let p = Sphere;
    let x = vec![1.5, -2.25, 0.5];
    let (fused_cost, fused_grad) = p.cost_and_gradient(&x);
    assert_eq!(fused_cost, p.cost(&x));
    assert_eq!(fused_grad, p.gradient(&x));
}

struct SphereN;
impl CostFunction for SphereN {
    type Param = DVector<f64>;
    type Output = f64;
    fn cost(&self, x: &DVector<f64>) -> f64 {
        x.dot(x)
    }
    fn cost_at(&self, param: &<Self as CostFunction>::Param) -> <Self as CostFunction>::Output {
        CostFunction::cost(self, param)
    }
}
impl Gradient for SphereN {
    type Param = DVector<f64>;
    type Gradient = DVector<f64>;
    fn gradient(&self, x: &DVector<f64>) -> DVector<f64> {
        2.0 * x
    }
    fn gradient_at(&self, param: &<Self as Gradient>::Param) -> <Self as Gradient>::Gradient {
        Gradient::gradient(self, param)
    }
}
impl Hessian for SphereN {
    type Param = DVector<f64>;
    type Output = DMatrix<f64>;
    fn hessian(&self, x: &DVector<f64>) -> DMatrix<f64> {
        2.0 * DMatrix::identity(x.len(), x.len())
    }
    fn hessian_at(&self, param: &<Self as Hessian>::Param) -> <Self as Hessian>::Output {
        Hessian::hessian(self, param)
    }
}
impl CostAndGradientAndHessian for SphereN {}

#[test]
fn default_triple_matches_separate_calls() {
    let p = SphereN;
    let x = DVector::from_vec(vec![1.0, -2.0, 3.0]);
    let (c, g, h) = p.cost_and_gradient_and_hessian(&x);
    assert_eq!(c, p.cost(&x));
    assert_eq!(g, p.gradient(&x));
    assert_eq!(h, p.hessian(&x));
}

struct CountedTriple {
    fused_calls: Rc<Cell<usize>>,
}
impl CostFunction for CountedTriple {
    type Param = DVector<f64>;
    type Output = f64;
    fn cost(&self, x: &DVector<f64>) -> f64 {
        x.dot(x)
    }
    fn cost_at(&self, param: &<Self as CostFunction>::Param) -> <Self as CostFunction>::Output {
        CostFunction::cost(self, param)
    }
}
impl Gradient for CountedTriple {
    type Param = DVector<f64>;
    type Gradient = DVector<f64>;
    fn gradient(&self, x: &DVector<f64>) -> DVector<f64> {
        2.0 * x
    }
    fn gradient_at(&self, param: &<Self as Gradient>::Param) -> <Self as Gradient>::Gradient {
        Gradient::gradient(self, param)
    }
}
impl Hessian for CountedTriple {
    type Param = DVector<f64>;
    type Output = DMatrix<f64>;
    fn hessian(&self, x: &DVector<f64>) -> DMatrix<f64> {
        2.0 * DMatrix::identity(x.len(), x.len())
    }
    fn hessian_at(&self, param: &<Self as Hessian>::Param) -> <Self as Hessian>::Output {
        Hessian::hessian(self, param)
    }
}
impl CostAndGradientAndHessian for CountedTriple {
    fn cost_and_gradient_and_hessian(
        &self,
        x: &DVector<f64>,
    ) -> (f64, DVector<f64>, DMatrix<f64>) {
        self.fused_calls.set(self.fused_calls.get() + 1);
        let c = x.dot(x);
        let g = 2.0 * x;
        let h = 2.0 * DMatrix::identity(x.len(), x.len());
        (c, g, h)
    }
}

#[test]
fn override_triple_is_called() {
    let counter = Rc::new(Cell::new(0_usize));
    let p = CountedTriple {
        fused_calls: counter.clone(),
    };
    let x = DVector::from_vec(vec![1.0, 2.0, 3.0]);
    let _ = p.cost_and_gradient_and_hessian(&x);
    let _ = p.cost_and_gradient_and_hessian(&x);
    assert_eq!(counter.get(), 2);
}

/// `r(x) = (x₀ − 1, x₁ − 2)`, `J = I`.
struct Affine;
impl Residual for Affine {
    type Param = DVector<f64>;
    type Output = DVector<f64>;
    fn residual(&self, x: &DVector<f64>) -> DVector<f64> {
        DVector::from_vec(vec![x[0] - 1.0, x[1] - 2.0])
    }
    fn residual_at(&self, param: &<Self as Residual>::Param) -> <Self as Residual>::Output {
        Residual::residual(self, param)
    }
}
impl Jacobian for Affine {
    type Param = DVector<f64>;
    type Output = DMatrix<f64>;
    fn jacobian(&self, _x: &DVector<f64>) -> DMatrix<f64> {
        DMatrix::identity(2, 2)
    }
    fn jacobian_at(&self, param: &<Self as Jacobian>::Param) -> <Self as Jacobian>::Output {
        Jacobian::jacobian(self, param)
    }
}
impl ResidualAndJacobian for Affine {}

#[test]
fn default_residual_and_jacobian_matches_separate_calls() {
    let p = Affine;
    let x = DVector::from_vec(vec![4.0, -1.0]);
    let (r, j) = p.residual_and_jacobian(&x);
    assert_eq!(r, p.residual(&x));
    assert_eq!(j, p.jacobian(&x));
    assert_eq!(r, DVector::from_vec(vec![3.0, -3.0]));
}
