use basin::FloatBits;

fn fb(v: f64) -> FloatBits {
    FloatBits(v.to_bits())
}

const SAMPLES: [f64; 14] = [
    f64::NEG_INFINITY,
    f64::MIN,
    -2.5,
    -1.0,
    -f64::MIN_POSITIVE,
    -0.0,
    0.0,
    5e-324,
    f64::MIN_POSITIVE,
    0.5,
    1.0,
    1e300,
    f64::MAX,
    f64::INFINITY,
];

#[test]
fn comparisons_agree_with_f64_on_samples() {
    let with_nan: Vec<f64> = SAMPLES.iter().copied().chain([f64::NAN, -f64::NAN]).collect();
    for &a in &with_nan {
        for &b in &with_nan {
            assert_eq!(fb(a).lt(&fb(b)), a < b, "{a} < {b}");
            assert_eq!(fb(a).le(&fb(b)), a <= b, "{a} <= {b}");
        }
        assert_eq!(fb(a).is_nan(), a.is_nan(), "is_nan({a})");
    }
}

#[test]
fn rank_orders_numbers_and_puts_nan_last() {
    for w in SAMPLES.windows(2) {
        assert!(fb(w[0]).rank() <= fb(w[1]).rank());
    }
    assert_eq!(fb(-0.0).rank(), fb(0.0).rank());
    assert!(fb(f64::INFINITY).rank() < fb(f64::NAN).rank());
    assert_eq!(fb(f64::NAN).rank(), fb(-f64::NAN).rank());
}
