use assert_float_eq::{next_n_f64, previous_n_f64};
use enterpolation::easing::{flip, smootherstep, smoothend, smoothstart, smoothstep, FuncEase, Identity, Plateau};
use enterpolation::{Curve, Generator};

fn assert_f64_near(a: f64, b: f64) {
    let previous = previous_n_f64(a, 4);
    let next = next_n_f64(a, 4);
    assert!(b >= previous && b <= next, "{} and {} are not near", a, b);
}

#[test]
fn easing_functions() {
    assert_f64_near(flip(0.25), 0.75);
    assert_f64_near(smoothstart::<f64, 3>(0.5), 0.125);
    assert_f64_near(smoothstart::<f64, 0>(0.5), 0.5);
    assert_f64_near(smoothend::<f64, 2>(0.5), 0.75);
    assert_f64_near(smoothstep(0.5), 0.5);
    assert_f64_near(smoothstep(0.25), 0.15625);
    assert_f64_near(smootherstep(0.5), 0.5);
    assert_f64_near(smootherstep(1.0), 1.0);
}

#[test]
fn easing_generators() {
    let identity = Identity::new();
    assert_f64_near(identity.gen(0.3), 0.3);
    let domain: [f64; 2] = identity.domain();
    assert_f64_near(domain[1], 1.0);
    let ease = FuncEase::new(smoothstep::<f64>);
    assert_f64_near(ease.gen(0.25), 0.15625);
    let plateau = Plateau::new(0.5);
    assert_f64_near(plateau.gen(0.2), 0.0);
    assert_f64_near(plateau.gen(0.8), 1.0);
    assert_f64_near(plateau.gen(0.5), 0.5);
    assert_f64_near(plateau.gen(0.375), 0.25);
}

#[test]
fn plateau_without_strength_is_identity() {
    let plateau = Plateau::new(0.0);
    for x in [0.0, 0.3, 0.5, 0.8, 1.0] {
        assert_f64_near(plateau.gen(x), x);
    }
    let full = Plateau::new(1.0);
    assert_f64_near(full.gen(0.2), 0.0);
    assert_f64_near(full.gen(0.7), 1.0);
}
