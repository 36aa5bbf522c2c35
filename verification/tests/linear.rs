use assert_float_eq::{next_n_f64, previous_n_f64};
use enterpolation::easing::{FuncEase, Plateau};
use enterpolation::linear::{KnotElementInequality, Linear, LinearBuilder, LinearDirector, LinearError};
use enterpolation::weights::Homogeneous;
use enterpolation::{ConstEquidistant, Curve, Generator, Identity, Sorted};

fn assert_f64_near(a: f64, b: f64) {
    let previous = previous_n_f64(a, 4);
    let next = next_n_f64(a, 4);
    assert!(b >= previous && b <= next, "{} and {} are not near", a, b);
}

#[test]
fn builder_errors() {
    assert!(LinearBuilder::new().elements::<[f64; 0]>([]).knots::<[f64; 0]>([]).build().is_err());
    assert!(LinearBuilder::new().elements([1.0]).knots([1.0]).build().is_err());
    assert!(LinearBuilder::new().elements([1.0, 2.0]).knots([1.0, 2.0, 3.0]).build().is_err());
}

#[test]
fn director_errors() {
    assert!(LinearDirector::new().elements([0.0]).is_err());
    assert!(LinearDirector::new().elements([0.0, 1.0]).unwrap().knots([1.0]).is_err());
    assert!(LinearDirector::new().elements([1.0, 2.0]).unwrap().knots([1.0, 2.0, 3.0]).is_err());
    assert!(LinearDirector::new().elements([1.0, 2.0]).unwrap().knots([1.0, 2.0]).is_ok());
}

#[test]
fn linear_equidistant() {
    let lin = Linear::builder().elements([20.0, 100.0, 0.0, 200.0]).equidistant::<f64>().normalized().build().unwrap();
    let expected = [20.0, 60.0, 100.0, 50.0, 0.0, 100.0, 200.0];
    for i in 0..expected.len() {
        assert_f64_near(lin.gen(i as f64 / 6.0), expected[i]);
    }
}

#[test]
fn mod_linear() {
    let lin = Linear::builder().elements([20.0, 100.0, 0.0, 200.0]).knots([0.0, 1.0 / 3.0, 2.0 / 3.0, 1.0]).build().unwrap();
    let expected = [20.0, 60.0, 100.0, 50.0, 0.0, 100.0, 200.0];
    for i in 0..expected.len() {
        assert_f64_near(lin.gen(i as f64 / 6.0), expected[i]);
    }
}

#[test]
fn linear_extrapolation() {
    let lin = Linear::builder().elements([20.0, 100.0, 0.0, 200.0]).knots([1.0, 2.0, 3.0, 4.0]).build().unwrap();
    assert_f64_near(lin.gen(1.5), 60.0);
    assert_f64_near(lin.gen(2.5), 50.0);
    assert_f64_near(lin.gen(-1.0), -140.0);
    assert_f64_near(lin.gen(5.0), 400.0);
}

#[test]
fn weights() {
    let lin = Linear::builder().elements_with_weights([(0.0, 9.0), (1.0, 1.0)]).equidistant::<f64>().normalized().build().unwrap();
    assert_f64_near(lin.gen(0.5), 0.1);
}

#[test]
fn mod_const_creation() {
    let lin: Linear<ConstEquidistant<f64, 4>, [f64; 4], Identity> = Linear::equidistant_unchecked([20.0, 100.0, 0.0, 200.0]);
    let expected = [20.0, 60.0, 100.0, 50.0, 0.0, 100.0, 200.0];
    for i in 0..expected.len() {
        assert_f64_near(lin.gen(i as f64 / 6.0), expected[i]);
    }
}

#[test]
fn building_weights() {
    LinearBuilder::new().elements_with_weights([(1.0, 1.0), (2.0, 2.0), (3.0, 0.0)]).equidistant::<f64>().normalized().build().unwrap();
    LinearBuilder::new().elements_with_weights([1.0, 2.0, 3.0].stack([1.0, 2.0, 0.0])).equidistant::<f64>().normalized().build().unwrap();
    LinearBuilder::new()
        .elements_with_weights([Homogeneous::new(1.0), Homogeneous::weighted_unchecked(2.0, 2.0), Homogeneous::infinity(3.0)])
        .knots([1.0, 2.0, 3.0])
        .build()
        .unwrap();
    LinearBuilder::new().elements([0.1, 0.2, 0.3]).equidistant::<f64>().normalized().build().unwrap();
}

#[test]
fn linear_errors_in_detail() {
    match Linear::new([1.0], Sorted::new_unchecked([1.0]), Identity::new()) {
        Err(LinearError::ToFewElements(err)) => assert_eq!(err.found(), 1),
        _ => panic!("expected too few elements"),
    }
    match Linear::new([1.0, 2.0], Sorted::new_unchecked([1.0, 2.0, 3.0]), Identity::new()) {
        Err(LinearError::KnotElementInequality(err)) => {
            assert_eq!(err.elements(), 2);
            assert_eq!(err.knots(), 3);
        }
        _ => panic!("expected different numbers of knots and elements"),
    }
    let err = KnotElementInequality::new(4, 5);
    assert_eq!(err.elements(), 4);
    assert_eq!(err.knots(), 5);
    match LinearDirector::new().elements([1.0, 2.0, 3.0]).unwrap().knots([0.0, 2.0, 1.0]) {
        Err(LinearError::NotSorted(err)) => assert_eq!(err.index(), 1),
        _ => panic!("expected unsorted knots"),
    }
}

#[test]
fn linear_domain_and_easing() {
    let lin = Linear::builder().elements([0.0, 3.0]).knots([0.0, 1.0]).easing(FuncEase::new(|x: f64| x * x)).build().unwrap();
    assert_f64_near(lin.gen(0.5), 0.75);
    let domain = lin.domain();
    assert_f64_near(domain[0], 0.0);
    assert_f64_near(domain[1], 1.0);
    let plateau = Linear::builder().elements([0.0, 1.0]).knots([0.0, 1.0]).easing(Plateau::new(0.5)).build().unwrap();
    assert_f64_near(plateau.gen(0.1), 0.0);
    assert_f64_near(plateau.gen(0.5), 0.5);
    assert_f64_near(plateau.gen(0.9), 1.0);
}

#[test]
fn linear_clamp() {
    let lin = Linear::builder().elements([0.0, 3.0]).knots([0.0, 1.0]).build().unwrap();
    let clamped = enterpolation::Clamp::new(lin);
    let expected = [[-1.0, 0.0], [0.0, 0.0], [0.5, 1.5], [1.0, 3.0], [2.0, 3.0]];
    for [input, result] in expected {
        assert_f64_near(clamped.gen(input), result);
    }
}

#[test]
fn linear_slice() {
    let lin = Linear::builder().elements([0.0, 5.0, 3.0]).knots([0.0, 1.0, 2.0]).build().unwrap();
    let sliced = enterpolation::Slice::new(lin, 0.5..1.5);
    let results = [2.5, 5.0, 4.0];
    for i in 0..3 {
        assert_f64_near(sliced.gen(i as f64), results[i]);
    }
}
