use movie_night::chat::{exp_sat, MAX_OPTIONS, MIN_OPTIONS};

fn float_formula(n: i32) -> i32 {
    if n < 10 {
        return n;
    }
    let n = n as f64;
    let max = 50.0f64;
    let min = 10.0f64;
    (max - (max - min) * std::f64::consts::E.powf(0.1 - 0.01 * n)).round() as i32
}

#[test]
fn exp_sat_matches_the_saturation_curve() {
    for n in -2000..=20000 {
        assert_eq!(exp_sat(n), float_formula(n), "n = {}", n);
    }
    for n in [i32::MIN, i32::MIN + 1, -1, 100_000, 1_000_000, i32::MAX - 1, i32::MAX] {
        assert_eq!(exp_sat(n), float_formula(n), "n = {}", n);
    }
}

#[test]
fn exp_sat_exact_values() {
    assert_eq!(exp_sat(-5), -5);
    assert_eq!(exp_sat(0), 0);
    assert_eq!(exp_sat(9), 9);
    assert_eq!(exp_sat(10), 10);
    assert_eq!(exp_sat(11), 10);
    assert_eq!(exp_sat(12), 11);
    assert_eq!(exp_sat(100), 34);
    assert_eq!(exp_sat(448), 49);
    assert_eq!(exp_sat(449), 50);
    assert_eq!(exp_sat(i32::MAX), 50);
}

#[test]
fn exp_sat_laws_on_a_range() {
    for n in -100..3000 {
        let r = exp_sat(n);
        if n < MIN_OPTIONS {
            assert_eq!(r, n);
        } else {
            assert!(MIN_OPTIONS <= r && r <= MAX_OPTIONS && r <= n);
        }
        let next = exp_sat(n + 1);
        assert!(r <= next && next <= r + 1);
    }
}
