use assert_float_eq::{next_n_f64, previous_n_f64};
use enterpolation::bezier::{Bezier, BezierBuilder, BezierDirector, BezierError};
use enterpolation::weights::Homogeneous;
use enterpolation::{ConstSpace, Curve, DynSpace, Generator};

fn assert_f64_near(a: f64, b: f64) {
    let previous = previous_n_f64(a, 4);
    let next = next_n_f64(a, 4);
    assert!(b >= previous && b <= next, "{} and {} are not near", a, b);
}

#[test]
fn gen() {
    let bez = Bezier::<f64, _, _>::new([20.0, 100.0, 0.0, 200.0], ConstSpace::<_, 4>::new()).unwrap();
    let inputs = [0.0, 0.25, 0.5, 0.75, 1.0];
    let expected = [20.0, 53.75, 65.0, 98.75, 200.0];
    for i in 0..=4 {
        assert_f64_near(bez.gen(inputs[i]), expected[i]);
    }
}

#[test]
fn mod_extrapolation() {
    let bez = Bezier::<f64, _, _>::new([20.0, 0.0, 200.0], ConstSpace::<_, 3>::new()).unwrap();
    assert_f64_near(bez.gen(2.0), 820.0);
    assert_f64_near(bez.gen(-1.0), 280.0);
}

#[test]
fn bigger_workspace() {
    let bez = Bezier::<f64, _, _>::new([5.0], ConstSpace::<_, 3>::new()).unwrap();
    let res = bez.gen_with_tangent(0.5);
    assert_f64_near(res[0], 5.0);
    assert_f64_near(res[1], 0.0);
}

#[test]
fn mod_constant() {
    let bez = Bezier::<f64, _, _>::new([5.0], ConstSpace::<_, 1>::new()).unwrap();
    let res = bez.gen_with_tangent(0.25);
    assert_f64_near(res[0], 5.0);
    assert_f64_near(res[1], 0.0);
    let res = bez.gen_with_tangent(0.75);
    assert_f64_near(res[0], 5.0);
    assert_f64_near(res[1], 0.0);
}

#[test]
fn deriatives() {
    let bez = BezierDirector::new()
        .elements([1.0, 2.0, 3.0])
        .unwrap()
        .normalized::<f64>()
        .constant()
        .build();
    let res = bez.gen_with_tangent(0.5);
    assert_f64_near(res[0], 2.0);
    assert_f64_near(res[1], 2.0);
    let res = bez.gen_with_deriatives::<3>(0.5);
    assert_f64_near(res[0], 2.0);
    assert_f64_near(res[1], 2.0);
    assert_f64_near(res[2], 0.0);
    // asking for too many deriatives does not panic
    let res = bez.gen_with_deriatives::<5>(0.5);
    assert_f64_near(res[0], 2.0);
    assert_f64_near(res[1], 2.0);
    assert_f64_near(res[2], 0.0);
    assert_f64_near(res[3], 0.0);
    assert_f64_near(res[4], 0.0);
}

#[test]
fn bezier_errors() {
    assert!(BezierDirector::new().elements::<[f32; 0]>([]).is_err());
    assert!(BezierDirector::new().elements([1.0]).is_ok());
}

#[test]
fn builder_elements_with_weights() {
    BezierBuilder::new()
        .elements_with_weights([(1.0, 1.0), (2.0, 2.0), (3.0, 0.0)])
        .normalized::<f64>()
        .constant()
        .build()
        .unwrap();
    BezierBuilder::new()
        .elements_with_weights([1.0, 2.0, 3.0].stack([1.0, 2.0, 0.0]))
        .normalized::<f64>()
        .constant()
        .build()
        .unwrap();
    BezierBuilder::new()
        .elements_with_weights([
            Homogeneous::new(1.0),
            Homogeneous::weighted_unchecked(2.0, 2.0),
            Homogeneous::infinity(3.0),
        ])
        .normalized::<f64>()
        .constant()
        .build()
        .unwrap();
    BezierBuilder::new()
        .elements([0.1, 0.2, 0.3])
        .normalized::<f64>()
        .constant()
        .build()
        .unwrap();
    assert!(BezierBuilder::new()
        .elements::<[f64; 0]>([])
        .normalized::<f64>()
        .constant()
        .build()
        .is_err());
}

#[test]
fn bezier_new_errors() {
    let empty: [f64; 0] = [];
    assert!(matches!(
        Bezier::<f64, _, _>::new(empty, ConstSpace::<f64, 0>::new()),
        Err(BezierError::Empty(_))
    ));
    match Bezier::<f64, _, _>::new([1.0, 2.0, 3.0], ConstSpace::<f64, 2>::new()) {
        Err(BezierError::TooSmallWorkspace(err)) => {
            assert_eq!(err.found(), 2);
            assert_eq!(err.necessary(), 3);
        }
        _ => panic!("expected a too small workspace"),
    }
}

#[test]
fn director_workspace_error() {
    let director = BezierDirector::new().elements([1.0, 2.0, 3.0]).unwrap().normalized::<f64>();
    match director.workspace(DynSpace::<f64>::new(2)) {
        Err(err) => {
            assert_eq!(err.found(), 2);
            assert_eq!(err.necessary(), 3);
        }
        Ok(_) => panic!("expected a too small workspace"),
    }
}

#[test]
fn builder_keeps_first_error() {
    let result = BezierBuilder::new()
        .elements::<[f64; 0]>([])
        .normalized::<f64>()
        .workspace(DynSpace::<f64>::new(0))
        .build();
    assert!(matches!(result, Err(BezierError::Empty(_))));
}

#[test]
fn custom_domain() {
    let bez = BezierBuilder::new()
        .elements([20.0, 0.0, 200.0])
        .domain(1.0, 3.0)
        .dynamic()
        .build()
        .unwrap();
    // the middle of the domain is the middle of the curve
    assert_f64_near(bez.gen(2.0), 55.0);
    assert_f64_near(bez.gen(1.0), 20.0);
    assert_f64_near(bez.gen(3.0), 200.0);
    let domain = bez.domain();
    assert_f64_near(domain[0], 1.0);
    assert_f64_near(domain[1], 3.0);
}

#[test]
fn tangent_and_value_agree() {
    let bez = Bezier::<f64, _, _>::new([20.0, 0.0, 200.0], ConstSpace::<_, 3>::new()).unwrap();
    for x in [0.0, 0.5, 1.0] {
        let res = bez.gen_with_tangent(x);
        assert_f64_near(res[0], bez.gen(x));
        let deriatives = bez.gen_with_deriatives::<3>(x);
        assert_f64_near(deriatives[0], bez.gen(x));
        assert_f64_near(deriatives[1], res[1]);
    }
    // the tangent of 20*(1-x)^2 + 200*x^2 is 2*(220x - 20) and the second deriative 440
    let res = bez.gen_with_deriatives::<3>(0.5);
    assert_f64_near(res[1], 180.0);
    assert_f64_near(res[2], 440.0);
}

#[test]
fn weighted_bezier() {
    let bez = BezierBuilder::new()
        .elements_with_weights([(0.0, 9.0), (1.0, 1.0)])
        .normalized::<f64>()
        .constant()
        .build()
        .unwrap();
    assert_f64_near(bez.gen(0.5), 0.1);
}

#[test]
fn elevation_keeps_the_curve() {
    let source = [20.0, 0.0, 200.0];
    let mut target = [0.0; 4];
    enterpolation::bezier::bezier_elevate::<f64, f64, _>(&source, &mut target);
    assert_f64_near(target[0], 20.0);
    assert_f64_near(target[1], 20.0 / 3.0);
    assert_f64_near(target[2], 200.0 / 3.0);
    assert_f64_near(target[3], 200.0);
    let mut inplace = vec![20.0, 0.0, 200.0];
    enterpolation::bezier::bezier_elevate_inplace::<f64, f64>(&mut inplace);
    assert_eq!(inplace.len(), 4);
    for i in 0..4 {
        assert_f64_near(inplace[i], target[i]);
    }
    let quadratic = Bezier::<f64, _, _>::new(source, ConstSpace::<_, 3>::new()).unwrap();
    let elevated = Bezier::<f64, _, _>::new(target, ConstSpace::<_, 4>::new()).unwrap();
    for x in [0.0, 0.25, 0.5, 0.75, 1.0] {
        assert_f64_near(quadratic.gen(x), elevated.gen(x));
    }
}

#[test]
fn take_samples_of_bezier() {
    let bez = Bezier::<f64, _, _>::new([20.0, 100.0, 0.0, 200.0], ConstSpace::<_, 4>::new()).unwrap();
    let mut samples = enterpolation::Take::new(bez, 5);
    assert_eq!(samples.size_hint(), (5, Some(5)));
    let expected = [20.0, 53.75, 65.0, 98.75, 200.0];
    for i in 0..4 {
        assert_f64_near(samples.next().unwrap(), expected[i]);
    }
    assert_f64_near(samples.next_back().unwrap(), expected[4]);
    assert!(samples.next().is_none());
}

#[test]
fn trimming_halves() {
    let mut left = [20.0, 0.0, 200.0];
    enterpolation::bezier::bezier_trim_right::<f64, f64, _>(&mut left, 0.5);
    assert_f64_near(left[0], 20.0);
    assert_f64_near(left[1], 10.0);
    assert_f64_near(left[2], 55.0);
    let mut right = vec![20.0, 0.0, 200.0];
    enterpolation::bezier::bezier_trim_left::<f64, f64, _>(&mut right, 0.5);
    assert_f64_near(right[0], 55.0);
    assert_f64_near(right[1], 100.0);
    assert_f64_near(right[2], 200.0);
}

#[test]
fn unchecked_bezier_is_checked() {
    let checked = Bezier::<f64, _, _>::new([20.0, 100.0, 0.0, 200.0], ConstSpace::<_, 4>::new()).unwrap();
    let unchecked = Bezier::<f64, _, _>::new_unchecked([20.0, 100.0, 0.0, 200.0], ConstSpace::<_, 4>::new());
    for x in [0.0, 0.25, 0.5, 0.75, 1.0] {
        assert_f64_near(checked.gen(x), unchecked.gen(x));
    }
    assert_eq!(checked.domain(), unchecked.domain());
}
