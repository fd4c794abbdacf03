use basin::{apply_permutation, sort_population_ascending, FloatBits};

fn fb(v: f64) -> FloatBits {
    FloatBits(v.to_bits())
}

#[test]
fn apply_permutation_gathers_by_index() {
    let mut s = vec!['a', 'b', 'c', 'd', 'e'];
    apply_permutation(&mut s, &[3, 0, 4, 1, 2]);
    assert_eq!(s, vec!['d', 'a', 'e', 'b', 'c']);
}

#[test]
fn apply_permutation_identity_and_fixed_points() {
    let mut s = vec![10, 20, 30];
    apply_permutation(&mut s, &[0, 1, 2]);
    assert_eq!(s, vec![10, 20, 30]);
    let mut t = vec![1, 2, 3, 4];
    apply_permutation(&mut t, &[0, 2, 1, 3]);
    assert_eq!(t, vec![1, 3, 2, 4]);
}

#[test]
fn apply_permutation_on_empty() {
    let mut s: Vec<u8> = Vec::new();
    apply_permutation(&mut s, &[]);
    assert!(s.is_empty());
}

#[test]
fn sort_orders_candidates_with_their_costs() {
    let mut candidates = vec!["c", "a", "d", "b"];
    let mut costs = vec![fb(3.0), fb(1.0), fb(4.0), fb(2.0)];
    sort_population_ascending(&mut candidates, &mut costs);
    assert_eq!(candidates, vec!["a", "b", "c", "d"]);
    assert_eq!(costs, vec![fb(1.0), fb(2.0), fb(3.0), fb(4.0)]);
}

#[test]
fn sort_puts_nan_costs_last() {
    let mut candidates = vec![0, 1, 2, 3];
    let mut costs = vec![fb(f64::NAN), fb(-1.0), fb(f64::INFINITY), fb(0.5)];
    sort_population_ascending(&mut candidates, &mut costs);
    assert_eq!(candidates, vec![1, 3, 2, 0]);
    assert!(f64::from_bits(costs[3].0).is_nan());
}

#[test]
fn sort_is_stable_on_ties() {
    let mut candidates = vec!['x', 'y', 'z', 'w'];
    let mut costs = vec![fb(2.0), fb(1.0), fb(2.0), fb(1.0)];
    sort_population_ascending(&mut candidates, &mut costs);
    assert_eq!(candidates, vec!['y', 'w', 'x', 'z']);
    // +0 and -0 rank the same, so they keep their order too.
    let mut c2 = vec![0, 1];
    let mut k2 = vec![fb(0.0), fb(-0.0)];
    sort_population_ascending(&mut c2, &mut k2);
    assert_eq!(c2, vec![0, 1]);
}

#[test]
fn sort_matches_std_stable_sort_for_numbers() {
    let values = [0.3, -7.0, 2.5, 0.3, -0.0, 1e10, -1e-10, 2.5, 0.0, 4.0];
    let mut candidates: Vec<usize> = (0..values.len()).collect();
    let mut costs: Vec<FloatBits> = values.iter().map(|v| fb(*v)).collect();
    sort_population_ascending(&mut candidates, &mut costs);
    let mut expected: Vec<usize> = (0..values.len()).collect();
    expected.sort_by(|&i, &j| values[i].partial_cmp(&values[j]).unwrap());
    assert_eq!(candidates, expected);
}
