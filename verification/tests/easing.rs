use wallpaper::easing::{
    ease_in_bounce, ease_in_out_bounce, ease_in_out_cubic, ease_in_out_elastic, ease_out_bounce,
    ease_out_elastic,
};
use wallpaper::fixed::SCALE;

#[test]
fn easing_boundary_values() {
    assert_eq!(ease_out_elastic(0), 0);
    assert_eq!(ease_out_elastic(SCALE), SCALE);
    assert_eq!(ease_in_out_elastic(0), 0);
    assert_eq!(ease_in_out_elastic(SCALE), SCALE);
    assert_eq!(ease_out_bounce(0), 0);
    assert_eq!(ease_out_bounce(SCALE), SCALE);
    assert_eq!(ease_in_bounce(0), 0);
    assert_eq!(ease_in_bounce(SCALE), SCALE);
    assert_eq!(ease_in_out_bounce(0), 0);
    assert_eq!(ease_in_out_bounce(SCALE), SCALE);
    assert_eq!(ease_in_out_cubic(0), 0);
    assert_eq!(ease_in_out_cubic(SCALE), SCALE);
}

#[test]
fn in_bounce_reflects_out_bounce_on_samples() {
    let xs: [i64; 9] = [
        0, 1, 100_000, 250_000, 363_636, 500_000, 727_272, 909_090, 1_000_000,
    ];
    for &x in xs.iter() {
        assert_eq!(ease_in_bounce(x), SCALE - ease_out_bounce(SCALE - x));
    }
}

#[test]
fn out_bounce_midpoint_value() {
    assert_eq!(ease_out_bounce(500_000), 765_624);
}

#[test]
fn out_bounce_tracks_reference_curve() {
    let n1: f64 = 7.5625;
    let d1: f64 = 2.75;
    for i in 0..=100 {
        let x: i64 = i * 10_000;
        let xf: f64 = x as f64 / 1e6;
        let expect: f64 = if xf < 1.0 / d1 {
            n1 * xf * xf
        } else if xf < 2.0 / d1 {
            let y: f64 = xf - 1.5 / d1;
            n1 * y * y + 0.75
        } else if xf < 2.5 / d1 {
            let y: f64 = xf - 2.25 / d1;
            n1 * y * y + 0.9375
        } else {
            let y: f64 = xf - 2.625 / d1;
            n1 * y * y + 0.984375
        };
        let got: f64 = ease_out_bounce(x) as f64 / 1e6;
        assert!(
            (got - expect).abs() < 1e-4,
            "bounce mismatch at x={xf}: {got} vs {expect}"
        );
    }
}

#[test]
fn in_out_cubic_quarter_point() {
    assert_eq!(ease_in_out_cubic(250_000), 62_500);
}

#[test]
fn out_elastic_midpoint_is_damped_oscillation_value() {
    // 2^-5 * sin((5 - 0.75) * 2 pi / 3) + 1 == 1 + sin(5 pi / 6) / 32 == 1.015625
    let got: f64 = ease_out_elastic(500_000) as f64 / 1e6;
    assert!(
        (got - 1.015625).abs() < 1e-5,
        "elastic midpoint {got} differs from 1.015625"
    );
}

#[test]
fn out_elastic_tracks_reference_curve() {
    for i in 1..10 {
        let x: i64 = i * 100_000;
        let xf: f64 = x as f64 / 1e6;
        let c4: f64 = 2.0 * std::f64::consts::PI / 3.0;
        let expect: f64 = (2.0f64).powf(-10.0 * xf) * ((xf * 10.0 - 0.75) * c4).sin() + 1.0;
        let got: f64 = ease_out_elastic(x) as f64 / 1e6;
        assert!(
            (got - expect).abs() < 5e-5,
            "elastic mismatch at x={xf}: {got} vs {expect}"
        );
    }
}

#[test]
fn in_out_elastic_tracks_reference_curve() {
    for i in 1..10 {
        let x: i64 = i * 100_000;
        let xf: f64 = x as f64 / 1e6;
        let c5: f64 = 2.0 * std::f64::consts::PI / 4.5;
        let expect: f64 = if xf < 0.5 {
            -((2.0f64).powf(20.0 * xf - 10.0) * ((20.0 * xf - 11.125) * c5).sin()) / 2.0
        } else {
            ((2.0f64).powf(-20.0 * xf + 10.0) * ((20.0 * xf - 11.125) * c5).sin()) / 2.0 + 1.0
        };
        let got: f64 = ease_in_out_elastic(x) as f64 / 1e6;
        assert!(
            (got - expect).abs() < 5e-5,
            "in-out elastic mismatch at x={xf}: {got} vs {expect}"
        );
    }
}
