//! Math abstraction the solvers depend on, in two tiers.
//!
//! - **Vector tier**: small in-place ops every backend can implement —
//!   [`ScaledAdd`], [`NegInPlace`], [`VectorLen`], [`ComponentMulAssign`],
//!   [`ComponentMaxAssign`], [`ClampInPlace`].
//! - **Linear-algebra tier**: matrix ops only the matrix-capable backends
//!   implement — [`MatVec`], [`MatTransposeVec`], [`GramMatrix`],
//!   [`LinearSolveSpd`], [`LinearSolveLstsq`], [`MatDiagonal`],
//!   [`AddDiagonalVectorInPlace`], [`MatrixIdentity`],
//!   [`MatrixFromDiagonal`], [`SymmetricEigen`]. LA-heavy solvers bound on
//!   these, so a backend without them is a compile-time error rather than
//!   a runtime surprise.
//!
//! The backends implement these for their own vector and matrix types.
//! The one implementation here is [`ClampInPlace`] over
//! [`FloatBits`](crate::framework::float::FloatBits) vectors, whose every
//! comparison is exact (see [`crate::framework::float`]).

use vstd::prelude::*;

use crate::framework::float::{clamp_spec, FloatBits};

verus! {

/// In-place `self ← self + scalar · other`.
pub trait ScaledAdd<S> {
    /// Add `scalar · other` into `self` in place.
    fn scaled_add(&mut self, scalar: S, other: &Self);
}

/// In-place negation of every component.
pub trait NegInPlace {
    /// Negate every component of `self` in place.
    fn neg_in_place(&mut self);
}

/// Number of components in a 1-D vector (named `vec_len` so it does not
/// collide with the backends' inherent `len()`).
pub trait VectorLen {
    /// Number of components in `self`.
    fn vec_len(&self) -> usize;
}

/// In-place componentwise multiplication `self[i] ← self[i] · other[i]`.
pub trait ComponentMulAssign {
    /// Multiply `self[i]` by `other[i]` for every `i`, in place.
    fn component_mul_assign(&mut self, other: &Self);
}

/// In-place componentwise maximum `self[i] ← max(self[i], other[i])`.
pub trait ComponentMaxAssign {
    /// Set `self[i]` to `max(self[i], other[i])` for every `i`, in place.
    fn component_max_assign(&mut self, other: &Self);
}

/// In-place component-wise `self[i] ← clamp(self[i], lower[i], upper[i])`.
///
/// # Contract
///
/// - **Caller must:** ensure `lower[i] ≤ upper[i]` for every component,
///   with neither bound NaN, and pass bounds of the same shape as `self`.
/// - **Implementor must:** mutate `self` in place with no allocation.
pub trait ClampInPlace {
    /// Whether `lower` and `upper` are bounds `self` may be clamped to.
    /// `true` (no claim) unless an implementation states it exactly.
    open spec fn admits_bounds(&self, lower: &Self, upper: &Self) -> bool {
        true
    }

    /// Clamp every component of `self` into `[lower, upper]` element-wise.
    fn clamp_in_place(&mut self, lower: &Self, upper: &Self)
        requires
            old(self).admits_bounds(lower, upper),
    ;
}

impl ClampInPlace for Vec<FloatBits> {
    /// Bounds of the vector's length, neither NaN, `lower[i] <= upper[i]`:
    /// the inputs on which IEEE-754 `clamp` is defined.
    open spec fn admits_bounds(&self, lower: &Self, upper: &Self) -> bool {
        &&& lower.len() == self.len()
        &&& upper.len() == self.len()
        &&& forall|i: int|
            0 <= i < lower.len() ==> !lower[i].is_nan_spec() && !upper[i].is_nan_spec()
                && (#[trigger] lower[i]).le_spec(upper[i])
    }

    /// Each component becomes `clamp(x, lo, hi)` with the semantics of
    /// IEEE-754 `clamp`: `lo` if `x < lo`, `hi` if `x > hi`, else `x`
    /// (a NaN component stays NaN).
    fn clamp_in_place(&mut self, lower: &Self, upper: &Self)
        ensures
            final(self).len() == old(self).len(),
            forall|i: int|
                0 <= i < old(self).len() ==> #[trigger] final(self)[i] == clamp_spec(
                    old(self)[i],
                    lower[i],
                    upper[i],
                ),
    {
        let n = self.len();
        let mut i: usize = 0;
        while i < n
            invariant
                n == self.len(),
                n == old(self).len(),
                lower.len() == n,
                upper.len() == n,
                i <= n,
                forall|j: int|
                    0 <= j < n ==> !lower[j].is_nan_spec() && !upper[j].is_nan_spec()
                        && (#[trigger] lower[j]).le_spec(upper[j]),
                forall|j: int|
                    0 <= j < i ==> #[trigger] self[j] == clamp_spec(old(self)[j], lower[j], upper[j]),
                forall|j: int| i <= j < n ==> #[trigger] self[j] == old(self)[j],
            decreases n - i,
        {
            let x = self[i].clamp(lower[i], upper[i]);
            self.set(i, x);
            i = i + 1;
        }
    }
}

/// Matrix-vector product `y = A x` (`x` of length `ncols`, `y` of length
/// `nrows`).
pub trait MatVec<V> {
    /// Compute `A x`, allocating a fresh `V`.
    fn matvec(&self, x: &V) -> V;
}

/// Transposed matrix-vector product `y = Aᵀ x`, agreeing with [`MatVec`]
/// on the implicit transpose.
pub trait MatTransposeVec<V> {
    /// Compute `Aᵀ x`, allocating a fresh `V`.
    fn mat_transpose_vec(&self, x: &V) -> V;
}

/// Gram matrix `G = Aᵀ A`: square, symmetric, positive semi-definite.
pub trait GramMatrix {
    /// Compute `Aᵀ A`.
    fn gram(&self) -> Self where Self: Sized;
}

/// Solve the SPD linear system `A x = b` via Cholesky factorization;
/// [`LinearSolveError::NotPositiveDefinite`] when the factorization fails.
pub trait LinearSolveSpd<V> {
    /// Solve `self · x = b` assuming `self` is SPD.
    fn solve_spd(&self, b: &V) -> Result<V, LinearSolveError>;
}

/// Least-squares solve `min_x ‖A x − b‖₂` via QR factorization;
/// [`LinearSolveError::Singular`] when the factorization fails.
pub trait LinearSolveLstsq<V> {
    /// Solve the least-squares problem `min_x ‖self · x − b‖₂`.
    fn solve_lstsq(&self, b: &V) -> Result<V, LinearSolveError>;
}

/// Extract `diag(self)` of a square matrix into a fresh vector.
pub trait MatDiagonal<V> {
    /// Return `diag(self)`.
    fn diagonal(&self) -> V;
}

/// In-place diagonal augmentation `A ← A + diag(d)`.
pub trait AddDiagonalVectorInPlace<V> {
    /// Add `diag[i]` to `self[(i, i)]` for every `i`, in place.
    fn add_diagonal_vector_in_place(&mut self, diag: &V);
}

/// `n × n` identity matrix constructor.
pub trait MatrixIdentity {
    /// Build the `n × n` identity matrix.
    fn identity(n: usize) -> Self where Self: Sized;
}

/// `n × n` diagonal-matrix constructor from a vector.
pub trait MatrixFromDiagonal<V> {
    /// Build the matrix with `diag[i]` on the diagonal, `0` elsewhere.
    fn from_diagonal(diag: &V) -> Self where Self: Sized;
}

/// Symmetric eigendecomposition `A = B diag(λ) Bᵀ`, columns of `B`
/// orthonormal, eigenvalues in any order;
/// [`SymmetricEigenError::Failed`] when the iteration does not converge.
pub trait SymmetricEigen<V> {
    /// Eigendecompose a symmetric `self` into `(B, λ)`.
    fn try_eigh(&self) -> Result<(Self, V), SymmetricEigenError> where Self: Sized;
}

/// Reasons a [`SymmetricEigen::try_eigh`] call can fail.
#[derive(Debug, Clone, Copy, PartialEq, Eq, Structural)]
pub enum SymmetricEigenError {
    /// The eigensolver iteration failed to converge.
    Failed,
}

impl SymmetricEigenError {
    /// Human-readable description of the error.
    pub fn to_string(&self) -> (r: String)
        ensures
            r@ == "symmetric eigendecomposition failed to converge"@,
    {
        "symmetric eigendecomposition failed to converge".to_owned()
    }
}

/// Reasons a linear-solve trait call can fail.
#[derive(Debug, Clone, Copy, PartialEq, Eq, Structural)]
pub enum LinearSolveError {
    /// Cholesky factorization met a zero or negative pivot: the matrix is
    /// not positive definite. Reported by [`LinearSolveSpd`].
    NotPositiveDefinite,
    /// The matrix is numerically rank-deficient. Reported by
    /// [`LinearSolveLstsq`].
    Singular,
}

impl LinearSolveError {
    /// Human-readable description of the error.
    pub fn to_string(&self) -> (r: String)
        ensures
            r@ == match *self {
                LinearSolveError::NotPositiveDefinite => "matrix is not positive definite"@,
                LinearSolveError::Singular => "matrix is singular"@,
            },
    {
        match self {
            LinearSolveError::NotPositiveDefinite => "matrix is not positive definite".to_owned(),
            LinearSolveError::Singular => "matrix is singular".to_owned(),
        }
    }
}

} // verus!
