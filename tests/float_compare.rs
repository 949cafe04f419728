use snn_faults::float::{gt, is_negative, is_positive};

fn samples() -> Vec<f64> {
    vec![
        0.0,
        -0.0,
        1.0,
        -1.0,
        0.5,
        -0.5,
        1e-310,
        -1e-310,
        f64::MIN_POSITIVE,
        f64::MAX,
        f64::MIN,
        f64::INFINITY,
        f64::NEG_INFINITY,
        f64::NAN,
        -f64::NAN,
        3.0e10,
        -2.5e-5,
    ]
}

#[test]
fn gt_agrees_with_hardware() {
    for &a in &samples() {
        for &b in &samples() {
            assert_eq!(gt(a.to_bits(), b.to_bits()), a > b, "{} > {}", a, b);
        }
    }
}

#[test]
fn sign_tests_agree_with_hardware() {
    for &a in &samples() {
        assert_eq!(is_negative(a.to_bits()), a < 0.0, "{} < 0", a);
        assert_eq!(is_positive(a.to_bits()), a > 0.0, "{} > 0", a);
    }
}

#[test]
fn nan_is_never_above_threshold() {
    assert!(!gt(f64::NAN.to_bits(), (-1.0f64).to_bits()));
    assert!(!gt((1.0f64).to_bits(), f64::NAN.to_bits()));
}
