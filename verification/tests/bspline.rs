use assert_float_eq::{next_n_f32, next_n_f64, previous_n_f32, previous_n_f64};
use enterpolation::bspline::{BSpline, BSplineBuilder, BSplineDirector, BSplineError, BorderBuffer, BorderDeletion};
use enterpolation::bspline::error::{
    BSplineBuildMode, IncongruousElementsDegree, IncongruousElementsKnots, InvalidDegree, TooFewKnots,
};
use enterpolation::weights::Homogeneous;
use enterpolation::{Curve, DiscreteGenerator, Equidistant, Generator, Sorted, SortedGenerator};

fn assert_f64_near(a: f64, b: f64) {
    let previous = previous_n_f64(a, 4);
    let next = next_n_f64(a, 4);
    assert!(b >= previous && b <= next, "{} and {} are not near", a, b);
}

fn assert_f32_near(a: f32, b: f32) {
    let previous = previous_n_f32(a, 4);
    let next = next_n_f32(a, 4);
    assert!(b >= previous && b <= next, "{} and {} are not near", a, b);
}

#[test]
fn linear_bspline() {
    let expect = [(-1.0, -1.0), (0.0, 0.0), (0.2, 0.2), (0.4, 0.4), (0.6, 0.6), (0.8, 0.8), (1.0, 1.0), (2.0, 2.0)];
    let points = [0.0f32, 1.0];
    let knots = [0.0f32, 1.0];
    let spline = BSpline::builder().elements(points).knots(knots).constant::<2>().build().unwrap();
    for i in 0..expect.len() {
        assert_f32_near(spline.gen(expect[i].0), expect[i].1);
    }
}

#[test]
fn quadratic_bspline() {
    let expect = [(0.0, 0.0), (0.5, 0.125), (1.0, 0.5), (1.4, 0.74), (1.5, 0.75), (1.6, 0.74), (2.0, 0.5), (2.5, 0.125), (3.0, 0.0)];
    let points = [0.0f32, 0.0, 1.0, 0.0, 0.0];
    let knots = [0.0f32, 0.0, 1.0, 2.0, 3.0, 3.0];
    let spline = BSpline::builder().elements(points).knots(knots).constant::<3>().build().unwrap();
    for i in 0..expect.len() {
        assert_f32_near(spline.gen(expect[i].0), expect[i].1);
    }
}

#[test]
fn cubic_bspline() {
    let expect = [(-2.0, 0.0), (-1.5, 0.125), (-1.0, 1.0), (-0.6, 2.488), (0.0, 4.0), (0.5, 2.875), (1.5, 0.12500001), (2.0, 0.0)];
    let points = [0.0f32, 0.0, 0.0, 6.0, 0.0, 0.0, 0.0];
    let knots = [-2.0f32, -2.0, -2.0, -1.0, 0.0, 1.0, 2.0, 2.0, 2.0];
    let spline = BSpline::builder().elements(points).knots(knots).constant::<4>().build().unwrap();
    for i in 0..expect.len() {
        assert_f32_near(spline.gen(expect[i].0), expect[i].1);
    }
}

#[test]
fn quartic_bspline() {
    let expect = [(0.0, 0.0), (0.4, 0.0010666668), (1.0, 0.041666668), (1.5, 0.19791667), (2.0, 0.4583333), (2.5, 0.5989583), (3.0, 0.4583333), (3.2, 0.35206667), (4.1, 0.02733751), (4.5, 0.002604167), (5.0, 0.0)];
    let points = [0.0f32, 0.0, 0.0, 0.0, 1.0, 0.0, 0.0, 0.0, 0.0];
    let knots = [0.0f32, 0.0, 0.0, 0.0, 1.0, 2.0, 3.0, 4.0, 5.0, 5.0, 5.0, 5.0];
    let spline = BSpline::builder().elements(points).knots(knots).constant::<5>().build().unwrap();
    for i in 0..expect.len() {
        assert_f32_near(spline.gen(expect[i].0), expect[i].1);
    }
}

#[test]
fn quartic_bspline_f64() {
    let expect = [(0.0, 0.0), (0.4, 0.001066666666666667), (1.0, 0.041666666666666664), (1.5, 0.19791666666666666), (2.0, 0.45833333333333337), (2.5, 0.5989583333333334), (3.0, 0.4583333333333333), (3.2, 0.3520666666666666), (4.1, 0.027337500000000046), (4.5, 0.002604166666666666), (5.0, 0.0)];
    let points = [0.0, 0.0, 0.0, 0.0, 1.0, 0.0, 0.0, 0.0, 0.0];
    let knots = [0.0, 0.0, 0.0, 0.0, 1.0, 2.0, 3.0, 4.0, 5.0, 5.0, 5.0, 5.0];
    let spline = BSpline::builder().elements(points).knots(knots).constant::<5>().build().unwrap();
    for i in 0..expect.len() {
        assert_f64_near(spline.gen(expect[i].0), expect[i].1);
    }
}

#[test]
fn degenerate_creations() {
    let empty: [f64; 0] = [];
    assert!(BSplineBuilder::new().elements(empty).knots(empty).constant::<1>().build().is_err());
    assert!(BSplineBuilder::new().elements([1.0]).knots([1.0]).constant::<2>().build().is_err());
}

#[test]
fn mode_equality() {
    let elements = [1.0, 3.0, 7.0];
    let open = BSplineBuilder::new().elements(elements).knots([0.0, 0.0, 1.0, 1.0]).constant::<3>().build().unwrap();
    let clamped = BSplineBuilder::new().clamped().elements(elements).knots([0.0, 1.0]).constant::<3>().build().unwrap();
    let legacy = BSplineBuilder::new().legacy().elements(elements).knots([0.0, 0.0, 0.0, 1.0, 1.0, 1.0]).constant::<3>().build().unwrap();
    for i in 0..10 {
        let x = i as f64 / 9.0;
        let a = open.gen(x);
        let b = clamped.gen(x);
        let c = legacy.gen(x);
        assert_f64_near(a, b);
        assert_f64_near(b, c);
    }
}

#[test]
fn bspline_elements_with_weights() {
    BSplineBuilder::new()
        .elements_with_weights([(1.0, 1.0), (2.0, 2.0), (3.0, 0.0)])
        .equidistant::<f64>()
        .degree(2)
        .domain(0.0, 5.0)
        .constant::<3>()
        .build()
        .unwrap();
    BSplineBuilder::new()
        .elements_with_weights([1.0, 2.0, 3.0].stack([1.0, 2.0, 0.0]))
        .equidistant::<f64>()
        .degree(1)
        .normalized()
        .constant::<2>()
        .build()
        .unwrap();
    BSplineBuilder::new()
        .elements_with_weights([Homogeneous::new(1.0), Homogeneous::weighted_unchecked(2.0, 2.0), Homogeneous::infinity(3.0)])
        .knots([1.0, 2.0, 3.0])
        .constant::<2>()
        .build()
        .unwrap();
    BSplineBuilder::new()
        .elements([0.1, 0.2, 0.3])
        .equidistant::<f64>()
        .degree(1)
        .normalized()
        .constant::<2>()
        .build()
        .unwrap();
}

#[test]
fn borderdeletion() {
    let del = BorderDeletion::new(Equidistant::<f64>::normalized(11)).unwrap();
    assert_eq!(del.len(), 9);
    assert_eq!(del.strict_upper_bound_clamped(0.45, 0, del.len()), 4);
    assert_eq!(del.strict_upper_bound_clamped(-1.0, 0, del.len()), 0);
    assert_eq!(del.strict_upper_bound_clamped(10.0, 0, del.len()), 9);
    assert_eq!(del.strict_upper_bound(0.45), 4);
    assert_eq!(del.strict_upper_bound(-1.0), 0);
    assert_eq!(del.strict_upper_bound(10.0), 9);
    assert_eq!(del.strict_upper_bound_clamped(0.8, 1, 5), 5);
    assert_eq!(del.strict_upper_bound_clamped(0.45, 3, 7), 4);
}

#[test]
fn borderbuffer() {
    let buf = BorderBuffer::new(Equidistant::<f64>::normalized(11), 3);
    assert_eq!(buf.len(), 17);
    assert_eq!(buf.strict_upper_bound_clamped(0.45, 0, buf.len()), 8);
    assert_eq!(buf.strict_upper_bound_clamped(-1.0, 0, buf.len()), 0);
    assert_eq!(buf.strict_upper_bound_clamped(10.0, 0, buf.len()), 17);
    assert_eq!(buf.strict_upper_bound(0.45), 8);
    assert_eq!(buf.strict_upper_bound(-1.0), 0);
    assert_eq!(buf.strict_upper_bound(10.0), 17);
    assert_eq!(buf.strict_upper_bound_clamped(0.8, 1, 5), 5);
    assert_eq!(buf.strict_upper_bound_clamped(0.45, 3, 9), 8);
}

#[test]
fn border_adaptor_elements() {
    let buf = BorderBuffer::new([1.0, 2.0, 3.0], 2);
    let expected = [1.0, 1.0, 1.0, 2.0, 3.0, 3.0, 3.0];
    assert_eq!(buf.len(), expected.len());
    for i in 0..expected.len() {
        assert_f64_near(buf.gen(i), expected[i]);
    }
    let del = BorderDeletion::new([1.0, 2.0, 3.0, 4.0]).unwrap();
    assert_eq!(del.len(), 2);
    assert_f64_near(del.gen(0), 2.0);
    assert_f64_near(del.gen(1), 3.0);
    let empty: [f64; 0] = [];
    assert_eq!(BorderBuffer::new(empty, 2).len(), 0);
    assert_eq!(BorderDeletion::new([1.0]).unwrap_err().found(), 1);
}

#[test]
fn bspline_errors() {
    match BSpline::new([1.0], Sorted::new_unchecked([1.0]), enterpolation::ConstSpace::<f64, 2>::new()) {
        Err(BSplineError::TooFewElements(err)) => assert_eq!(err.found(), 1),
        _ => panic!("expected too few elements"),
    }
    match BSpline::new([1.0, 2.0, 3.0], Sorted::new_unchecked([1.0]), enterpolation::ConstSpace::<f64, 2>::new()) {
        Err(BSplineError::InvalidDegree(err)) => assert_eq!(err.degree(), -1),
        _ => panic!("expected an invalid degree"),
    }
    match BSpline::new([1.0, 2.0, 3.0], Sorted::new_unchecked([0.0, 1.0, 2.0, 3.0]), enterpolation::ConstSpace::<f64, 2>::new()) {
        Err(BSplineError::TooSmallWorkspace(err)) => {
            assert_eq!(err.found(), 2);
            assert_eq!(err.necessary(), 2);
        }
        _ => panic!("expected a too small workspace"),
    }
    assert!(BSpline::new([1.0, 2.0, 3.0], Sorted::new_unchecked([0.0, 1.0, 2.0, 3.0]), enterpolation::ConstSpace::<f64, 3>::new()).is_ok());
}

#[test]
fn director_knot_errors() {
    let err = BSplineDirector::new().elements([1.0, 2.0]).knots([1.0, 0.0]).unwrap_err();
    assert_eq!(err.index(), 0);
    match BSplineDirector::new().clamped().elements([1.0, 2.0]).knots([0.0, 1.0, 2.0]) {
        Err(BSplineError::InvalidDegree(err)) => assert_eq!(err.degree(), 0),
        _ => panic!("expected an invalid degree"),
    }
    match BSplineDirector::new().legacy().elements([1.0, 2.0]).knots([1.0]) {
        Err(BSplineError::TooFewElements(err)) => assert_eq!(err.found(), 1),
        _ => panic!("expected too few knots"),
    }
    match BSplineDirector::new().legacy().elements([1.0, 2.0]).knots([2.0, 1.0, 3.0]) {
        Err(BSplineError::NotSorted(err)) => assert_eq!(err.index(), 0),
        _ => panic!("expected unsorted knots"),
    }
}

#[test]
fn domain_of_bspline() {
    let spline = BSpline::builder()
        .elements([0.0, 0.0, 1.0, 0.0, 0.0])
        .knots([0.0, 0.0, 1.0, 2.0, 3.0, 3.0])
        .dynamic()
        .build()
        .unwrap();
    let domain = spline.domain();
    assert_f64_near(domain[0], 0.0);
    assert_f64_near(domain[1], 3.0);
}

#[test]
fn cardinal_cubic_constructions_agree() {
    let bspline = BSpline::builder()
        .clamped()
        .elements([0.0, 0.0, 0.0, 6.0, 0.0, 0.0, 0.0])
        .equidistant::<f64>()
        .degree(3)
        .domain(-2.0, 2.0)
        .constant::<4>()
        .build()
        .unwrap();
    let same_but_different = BSpline::builder()
        .elements([0.0, 0.0, 0.0, 6.0, 0.0, 0.0, 0.0])
        .knots([-2.0, -2.0, -2.0, -1.0, 0.0, 1.0, 2.0, 2.0, 2.0])
        .constant::<4>()
        .build()
        .unwrap();
    let run_time_spline = BSpline::builder()
        .elements(vec![0.0, 0.0, 0.0, 6.0, 0.0, 0.0, 0.0])
        .knots(vec![-2.0, -2.0, -2.0, -1.0, 0.0, 1.0, 2.0, 2.0, 2.0])
        .dynamic()
        .build()
        .unwrap();
    for i in 0..10 {
        let x = -2.0 + 4.0 * (i as f64) / 9.0;
        let a = bspline.gen(x);
        let b = same_but_different.gen(x);
        let c = run_time_spline.gen(x);
        assert_f64_near(a, b);
        assert_f64_near(b, c);
    }
}

#[test]
fn bspline_error_values() {
    let knots = IncongruousElementsKnots::clamped(3, 5);
    assert_eq!((knots.elements(), knots.knots(), knots.mode()), (3, 5, BSplineBuildMode::Clamped));
    let knots = IncongruousElementsKnots::open(3, 9);
    assert_eq!(knots.mode(), BSplineBuildMode::Open);
    let degree = IncongruousElementsDegree::legacy(2, 4);
    assert_eq!((degree.elements(), degree.degree(), degree.mode()), (2, 4, BSplineBuildMode::Legacy));
    assert_eq!(InvalidDegree::new(-3).degree(), -3);
    assert_eq!(TooFewKnots::new(1).found(), 1);
    assert!(matches!(BSplineError::from(TooFewKnots::new(1)), BSplineError::TooFewKnots(_)));
    assert!(matches!(BSplineError::from(knots), BSplineError::IncongruousElementsKnots(_)));
    assert!(matches!(BSplineError::from(degree), BSplineError::IncongruousElementsDegree(_)));
}

#[test]
fn clamped_bspline_meets_end_elements() {
    let elements = [1.0, 3.0, 7.0, 2.0];
    let curve = BSplineBuilder::new().clamped().elements(elements).knots([0.0, 0.5, 1.0]).constant::<3>().build().unwrap();
    let domain = curve.domain();
    assert_f64_near(domain[0], 0.0);
    assert_f64_near(domain[1], 1.0);
    assert_f64_near(curve.gen(domain[0]), 1.0);
    assert_f64_near(curve.gen(domain[1]), 2.0);
}

#[test]
fn quantity_and_degree_agree() {
    let elements = [1.0, 3.0, 7.0, 2.0];
    let by_degree = BSplineBuilder::new().elements(elements).equidistant::<f64>().degree(2).normalized().constant::<3>().build().unwrap();
    let by_quantity = BSplineBuilder::new().elements(elements).equidistant::<f64>().quantity(5).normalized().constant::<3>().build().unwrap();
    let clamped_degree = BSplineBuilder::new().clamped().elements(elements).equidistant::<f64>().degree(2).normalized().constant::<3>().build().unwrap();
    let clamped_quantity = BSplineBuilder::new().clamped().elements(elements).equidistant::<f64>().quantity(3).normalized().constant::<3>().build().unwrap();
    for i in 0..11 {
        let x = i as f64 / 10.0;
        assert_f64_near(by_degree.gen(x), by_quantity.gen(x));
        assert_f64_near(clamped_degree.gen(x), clamped_quantity.gen(x));
    }
    assert_f64_near(clamped_degree.gen(0.0), 1.0);
    assert_f64_near(clamped_degree.gen(1.0), 2.0);
}
