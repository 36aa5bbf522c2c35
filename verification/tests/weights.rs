use assert_float_eq::{next_n_f64, previous_n_f64};
use enterpolation::weights::{Homogeneous, IntoWeight, Project, Weighted, Weights};
use enterpolation::{DiscreteGenerator, Generator};

fn assert_f64_near(a: f64, b: f64) {
    let previous = previous_n_f64(a, 4);
    let next = next_n_f64(a, 4);
    assert!(b >= previous && b <= next, "{} and {} are not near", a, b);
}

#[test]
fn homogeneous_elements() {
    let h: Homogeneous<f64, f64> = Homogeneous::new(3.0);
    assert!(!h.is_infinite());
    assert_f64_near(h.project(), 3.0);
    let w = Homogeneous::weighted_unchecked(3.0, 2.0);
    assert_f64_near(w.direction(), 6.0);
    assert_f64_near(w.project(), 3.0);
    assert!(Homogeneous::<f64, f64>::weighted(3.0, 0.0).is_none());
    assert_f64_near(Homogeneous::weighted(3.0, 4.0).unwrap().project(), 3.0);
    let inf: Homogeneous<f64, f64> = Homogeneous::infinity(2.0);
    assert!(inf.is_infinite());
    assert_f64_near(inf.direction(), 2.0);
    let sum = Homogeneous::weighted_unchecked(1.0, 1.0) + Homogeneous::weighted_unchecked(3.0, 3.0);
    assert_f64_near(sum.project(), 2.5);
    let scaled = Homogeneous::weighted_unchecked(1.0, 2.0) * 3.0;
    assert_f64_near(scaled.direction(), 6.0);
    assert_f64_near(scaled.project(), 1.0);
    let difference = Homogeneous::weighted_unchecked(4.0, 2.0) - Homogeneous::new(1.0);
    assert_f64_near(difference.project(), 7.0);
}

#[test]
fn into_weight_and_project() {
    let h = (2.0, 4.0).into_weight();
    assert_f64_near(h.direction(), 8.0);
    assert_f64_near(Project::project(h), 2.0);
    let infinite = (2.0, 0.0).into_weight();
    assert!(infinite.is_infinite());
    assert_f64_near(infinite.direction(), 2.0);
}

#[test]
fn weights_and_weighted_adaptors() {
    let weights = Weights::new([(1.0, 2.0), (3.0, 1.0)]);
    assert_eq!(weights.len(), 2);
    assert_f64_near(weights.gen(0).direction(), 2.0);
    let weighted = Weighted::new([Homogeneous::weighted_unchecked(5.0, 2.0)]);
    assert_f64_near(weighted.gen(0), 5.0);
    let inner = weighted.inner();
    assert_eq!(inner.len(), 1);
}

#[test]
fn projection_round_trip() {
    for e in [-2.5, 0.0, 7.0] {
        assert_eq!(Homogeneous::<f64, f64>::new(e).project(), e);
        for w in [0.5, 2.0, 4.0] {
            assert_eq!(Homogeneous::weighted(e, w).unwrap().project(), e);
        }
    }
}
