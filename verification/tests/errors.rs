use basin::{LinearSolveError, SymmetricEigenError, TerminationReason};

#[test]
fn linear_solve_error_messages() {
    assert_eq!(
        LinearSolveError::NotPositiveDefinite.to_string(),
        "matrix is not positive definite"
    );
    assert_eq!(LinearSolveError::Singular.to_string(), "matrix is singular");
}

#[test]
fn symmetric_eigen_error_message() {
    assert_eq!(
        SymmetricEigenError::Failed.to_string(),
        "symmetric eigendecomposition failed to converge"
    );
}

#[test]
fn termination_reasons_compare_by_variant() {
    assert_eq!(TerminationReason::MaxIter, TerminationReason::MaxIter);
    assert_ne!(TerminationReason::SolverFailed, TerminationReason::SolverConverged);
}
