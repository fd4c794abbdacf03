use basin::{ClampInPlace, FloatBits};

fn bits(values: &[f64]) -> Vec<FloatBits> {
    values.iter().map(|v| FloatBits(v.to_bits())).collect()
}

#[test]
fn clamp_inside_box_is_identity() {
    let mut x = bits(&[0.5, -0.5, 1.5]);
    x.clamp_in_place(&bits(&[-1.0, -1.0, 0.0]), &bits(&[1.0, 1.0, 2.0]));
    assert_eq!(x, bits(&[0.5, -0.5, 1.5]));
}

#[test]
fn clamp_partially_outside_pins_only_offending_components() {
    let mut x = bits(&[-2.0, 0.5, 3.0]);
    x.clamp_in_place(&bits(&[-1.0, -1.0, -1.0]), &bits(&[1.0, 1.0, 1.0]));
    assert_eq!(x, bits(&[-1.0, 0.5, 1.0]));
}

#[test]
fn clamp_entirely_outside_pins_to_nearest_face() {
    let mut x = bits(&[-10.0, 10.0]);
    x.clamp_in_place(&bits(&[-1.0, -1.0]), &bits(&[1.0, 1.0]));
    assert_eq!(x, bits(&[-1.0, 1.0]));
}

#[test]
fn clamp_with_equal_bounds_pins_to_value() {
    let mut x = bits(&[5.0, -5.0]);
    x.clamp_in_place(&bits(&[1.0, 2.0]), &bits(&[1.0, 2.0]));
    assert_eq!(x, bits(&[1.0, 2.0]));
}

#[test]
fn clamp_matches_f64_clamp_on_a_grid() {
    let grid = [
        f64::NEG_INFINITY,
        -3.5,
        -1.0,
        -0.25,
        -0.0,
        0.0,
        1e-300,
        0.25,
        1.0,
        7.0,
        f64::INFINITY,
    ];
    for &lo in &grid {
        for &hi in &grid {
            if !(lo <= hi) {
                continue;
            }
            for &x in grid.iter().chain([f64::NAN].iter()) {
                let expected = x.clamp(lo, hi);
                let got = FloatBits(x.to_bits()).clamp(FloatBits(lo.to_bits()), FloatBits(hi.to_bits()));
                assert_eq!(got.0, expected.to_bits(), "x={x}, lo={lo}, hi={hi}");
            }
        }
    }
}

#[test]
fn clamp_keeps_nan_components() {
    let mut x = bits(&[f64::NAN, 3.0]);
    x.clamp_in_place(&bits(&[0.0, 0.0]), &bits(&[1.0, 1.0]));
    assert!(f64::from_bits(x[0].0).is_nan());
    assert_eq!(x[1], FloatBits(1.0f64.to_bits()));
}

#[test]
fn clamp_is_idempotent() {
    let lower = bits(&[-1.0, 0.0, 2.0]);
    let upper = bits(&[1.0, 0.5, 2.0]);
    let mut x = bits(&[-4.0, 0.25, 9.0]);
    x.clamp_in_place(&lower, &upper);
    let once = x.clone();
    x.clamp_in_place(&lower, &upper);
    assert_eq!(x, once);
}
