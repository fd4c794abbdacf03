use basin::{simplex_move, simplex_replacement, FloatBits, SimplexMove, SimplexReplacement};

fn fb(v: f64) -> FloatBits {
    FloatBits(v.to_bits())
}

#[test]
fn reflection_between_best_and_next_worst_is_accepted() {
    assert_eq!(simplex_move(fb(1.0), fb(3.0), fb(5.0), fb(2.0)), SimplexMove::Reflect);
    assert_eq!(simplex_move(fb(1.0), fb(3.0), fb(5.0), fb(1.0)), SimplexMove::Reflect);
}

#[test]
fn reflection_below_best_expands() {
    assert_eq!(simplex_move(fb(1.0), fb(3.0), fb(5.0), fb(0.5)), SimplexMove::Expand);
}

#[test]
fn reflection_between_next_worst_and_worst_contracts_outside() {
    assert_eq!(simplex_move(fb(1.0), fb(3.0), fb(5.0), fb(3.0)), SimplexMove::ContractOutside);
    assert_eq!(simplex_move(fb(1.0), fb(3.0), fb(5.0), fb(4.9)), SimplexMove::ContractOutside);
}

#[test]
fn reflection_at_or_above_worst_contracts_inside() {
    assert_eq!(simplex_move(fb(1.0), fb(3.0), fb(5.0), fb(5.0)), SimplexMove::ContractInside);
    assert_eq!(simplex_move(fb(1.0), fb(3.0), fb(5.0), fb(9.0)), SimplexMove::ContractInside);
}

#[test]
fn nan_reflection_contracts_inside() {
    assert_eq!(simplex_move(fb(1.0), fb(3.0), fb(5.0), fb(f64::NAN)), SimplexMove::ContractInside);
}

#[test]
fn expansion_kept_only_when_it_beats_the_reflection() {
    assert_eq!(
        simplex_replacement(SimplexMove::Expand, fb(5.0), fb(0.5), fb(0.2)),
        SimplexReplacement::Trial
    );
    assert_eq!(
        simplex_replacement(SimplexMove::Expand, fb(5.0), fb(0.5), fb(0.5)),
        SimplexReplacement::Reflected
    );
    assert_eq!(
        simplex_replacement(SimplexMove::Expand, fb(5.0), fb(0.5), fb(f64::NAN)),
        SimplexReplacement::Reflected
    );
}

#[test]
fn outside_contraction_kept_when_no_worse_than_reflection() {
    assert_eq!(
        simplex_replacement(SimplexMove::ContractOutside, fb(5.0), fb(4.0), fb(4.0)),
        SimplexReplacement::Trial
    );
    assert_eq!(
        simplex_replacement(SimplexMove::ContractOutside, fb(5.0), fb(4.0), fb(4.5)),
        SimplexReplacement::Shrink
    );
}

#[test]
fn inside_contraction_kept_when_it_beats_the_worst() {
    assert_eq!(
        simplex_replacement(SimplexMove::ContractInside, fb(5.0), fb(7.0), fb(4.0)),
        SimplexReplacement::Trial
    );
    assert_eq!(
        simplex_replacement(SimplexMove::ContractInside, fb(5.0), fb(7.0), fb(5.0)),
        SimplexReplacement::Shrink
    );
}

#[test]
fn accepted_reflection_ignores_the_trial_cost() {
    assert_eq!(
        simplex_replacement(SimplexMove::Reflect, fb(5.0), fb(2.0), fb(f64::NAN)),
        SimplexReplacement::Reflected
    );
}

#[test]
fn replacement_always_beats_the_worst_vertex() {
    let (best, next, worst) = (fb(1.0), fb(3.0), fb(5.0));
    for &fr in &[0.5, 1.0, 2.0, 3.0, 4.0, 5.0, 6.0, f64::NAN] {
        for &ft in &[0.1, 0.5, 2.0, 4.0, 4.5, 5.0, 8.0, f64::NAN] {
            let mv = simplex_move(best, next, worst, fb(fr));
            match simplex_replacement(mv, worst, fb(fr), fb(ft)) {
                SimplexReplacement::Reflected => assert!(fr < 5.0),
                SimplexReplacement::Trial => assert!(ft < 5.0),
                SimplexReplacement::Shrink => {}
            }
        }
    }
}
