use assert_float_eq::{next_n_f64, previous_n_f64};
use enterpolation::base::IntoIter;
use enterpolation::easing::Identity;
use enterpolation::{
    Composite, ConstDiscreteGenerator, Curve, DiscreteGenerator, Equidistant, Generator, NotSorted, Repeat, Slice,
    Sorted, SortedGenerator, Stack, Take, TransformInput, Wrap,
};

fn assert_f64_near(a: f64, b: f64) {
    let previous = previous_n_f64(a, 4);
    let next = next_n_f64(a, 4);
    assert!(b >= previous && b <= next, "{} and {} are not near", a, b);
}

#[test]
fn input_transform() {
    let identity = Identity {};
    let transformed = TransformInput::new(identity, 0.0, 2.0);
    assert_f64_near(transformed.gen(1.0), 2.0);
    let results = [0.0, 1.0, 2.0];
    let inputs = [0.0, 0.5, 1.0];
    for i in 0..3 {
        assert_f64_near(transformed.gen(inputs[i]), results[i]);
    }
    let transformed = TransformInput::new(identity, 0.0, 2.0);
    let mut taken = Take::<_, f64>::new(transformed, results.len());
    let mut expected = Take::<_, f64>::new(identity, results.len());
    for _ in 0..results.len() {
        assert_f64_near(taken.next().unwrap(), expected.next().unwrap());
    }
    assert!(taken.next().is_none());
    assert!(expected.next().is_none());
}

#[test]
fn slice() {
    let identity = Identity {};
    let slice = Slice::new(identity, 10.0..100.0);
    assert_f64_near(slice.gen(0.0), 10.0);
    assert_f64_near(slice.gen(1.0), 100.0);
    let results = [10.0, 100.0];
    let mut taken = Take::<_, f64>::new(slice, results.len());
    for i in 0..results.len() {
        assert_f64_near(taken.next().unwrap(), results[i]);
    }
    assert!(taken.next().is_none());
}

#[test]
fn normalized_to_domain() {
    let transformed = TransformInput::normalized_to_domain(Identity {}, 2.0, 6.0);
    assert_f64_near(transformed.gen(2.0), 0.0);
    assert_f64_near(transformed.gen(4.0), 0.5);
    assert_f64_near(transformed.gen(6.0), 1.0);
    let domain = transformed.domain();
    assert_f64_near(domain[0], 2.0);
    assert_f64_near(domain[1], 6.0);
}

#[test]
fn sorted_checks() {
    assert!(Sorted::new([1.0, 2.0, 2.0, 3.0]).is_ok());
    assert_eq!(Sorted::new([1.0, 3.0, 2.0]).unwrap_err().index(), 1);
    assert_eq!(NotSorted::new(4).index(), 4);
    let empty: [f64; 0] = [];
    assert!(Sorted::new(empty).is_ok());
}

#[test]
fn searching_sorted_knots() {
    let knots = Sorted::new([0.0, 1.0, 2.0, 3.0]).unwrap();
    assert_eq!(knots.strict_upper_bound(1.5), 2);
    assert_eq!(knots.strict_upper_bound(1.0), 2);
    assert_eq!(knots.strict_upper_bound(-1.0), 0);
    assert_eq!(knots.strict_upper_bound(7.0), 4);
    let (min, max, factor) = knots.upper_border(1.25);
    assert_eq!((min, max), (1, 2));
    assert_f64_near(factor, 0.25);
    let (min, max, factor) = knots.upper_border(4.0);
    assert_eq!((min, max), (2, 3));
    assert_f64_near(factor, 2.0);
}

#[test]
fn stack_repeat_wrap() {
    let stacked = [1.0, 2.0, 3.0].stack([4.0, 5.0]);
    assert_eq!(stacked.len(), 2);
    assert_eq!(stacked.gen(1), (2.0, 5.0));
    let repeated = DiscreteGenerator::repeat([1, 2, 3]);
    assert_eq!(repeated.len(), usize::MAX);
    assert_eq!(repeated.gen(7), 2);
    let wrapped = Wrap::new([1, 2, 3], 2);
    assert_eq!(wrapped.len(), 5);
    assert_eq!(wrapped.gen(3), 1);
    assert_eq!(wrapped.gen(4), 2);
    let around = Wrap::new([1, 2], 3);
    let elements: Vec<i32> = (0..around.len()).map(|i| around.gen(i)).collect();
    assert_eq!(elements, vec![1, 2, 1, 2, 1]);
    let empty: [i32; 0] = [];
    assert_eq!(Repeat::new(empty).len(), 0);
    let pair = Stack::new([1, 2], [3, 4]);
    assert_eq!(pair.gen(0), (1, 3));
}

#[test]
fn composite_and_first_last() {
    let composite = Composite::new([2usize, 0, 1], [10, 20, 30]);
    assert_eq!(composite.gen(0), 30);
    assert_eq!(composite.gen(1), 10);
    let v = vec![3, 4, 5];
    assert_eq!(DiscreteGenerator::first(&v), Some(3));
    assert_eq!(DiscreteGenerator::last(&v), Some(5));
    let empty: [u8; 0] = [];
    assert_eq!(DiscreteGenerator::first(&empty), None);
    assert!(DiscreteGenerator::is_empty(&empty));
    assert_eq!([1, 2, 3].to_array(), [1, 2, 3]);
}

#[test]
fn iterate_over_generator() {
    let mut iter = IntoIter::new([1, 2, 3, 4]);
    assert_eq!(iter.size_hint(), (4, Some(4)));
    assert_eq!(iter.next(), Some(1));
    assert_eq!(iter.next_back(), Some(4));
    assert_eq!(iter.nth(1), Some(3));
    assert_eq!(iter.next(), None);
    assert_eq!(iter.next_back(), None);
    let mut iter = IntoIter::new([1, 2, 3, 4, 5]);
    assert_eq!(iter.nth_back(1), Some(4));
    assert_eq!(iter.nth(5), None);
    assert_eq!(iter.count(), 3);
}

#[test]
fn equidistant_knots() {
    let knots = Equidistant::<f64>::new(5, 1.0, 3.0);
    assert_eq!(knots.len(), 5);
    assert_f64_near(knots.gen(0), 1.0);
    assert_f64_near(knots.gen(2), 2.0);
    assert_f64_near(knots.gen(4), 3.0);
    let normalized = Equidistant::<f64>::normalized(3);
    assert_f64_near(normalized.gen(1), 0.5);
    let stepped = Equidistant::<f64>::step(4, 1.0, 0.5);
    assert_f64_near(stepped.gen(3), 2.5);
    assert_eq!(stepped.strict_upper_bound(1.75), 2);
}

#[test]
fn generator_stepper() {
    let mut stepper = enterpolation::Stepper::<f64>::normalized(11);
    let res = [0.0, 0.1, 0.2, 0.3, 0.4, 0.5, 0.6, 0.7, 0.8, 0.9, 1.0];
    for i in 0..=10 {
        let val = stepper.next().unwrap();
        assert_f64_near(val, res[i]);
    }
    let mut stepper = enterpolation::Stepper::new(5, 3.0, 5.0);
    let res = [3.0, 3.5, 4.0, 4.5, 5.0];
    for i in 0..5 {
        let val = stepper.next().unwrap();
        assert_f64_near(val, res[i]);
    }
}

#[test]
fn signal_stepper() {
    let mut stepper = enterpolation::Stepper::<f64>::normalized(11);
    let res = [0.0, 0.1, 0.2, 0.3, 0.4, 0.5, 0.6, 0.7, 0.8, 0.9, 1.0];
    for val in res {
        assert_f64_near(val, stepper.next().unwrap());
    }
    let mut stepper = enterpolation::Stepper::new(5, 3.0, 5.0);
    let res = [3.0, 3.5, 4.0, 4.5, 5.0];
    for val in res {
        assert_f64_near(val, stepper.next().unwrap());
    }
}

#[test]
fn stepper_ends() {
    let mut stepper = enterpolation::Stepper::<f64>::new(3, 1.0, 2.0);
    assert_eq!(stepper.size_hint(), (3, Some(3)));
    assert_f64_near(stepper.next_back().unwrap(), 2.0);
    assert_eq!(stepper.count(), 2);
    let mut single = enterpolation::Stepper::<f64>::new(1, 4.0, 4.0);
    assert_eq!(single.size_hint(), (1, Some(1)));
    assert!(single.next().is_some());
    assert!(single.next().is_none());
}

#[test]
fn lerp_and_clamp() {
    assert_f64_near(enterpolation::utils::lerp(2.0, 4.0, 0.25), 2.5);
    let clamped = <Identity as Curve<f64>>::clamp(Identity::new());
    assert_f64_near(clamped.gen(-1.0), 0.0);
    assert_f64_near(clamped.gen(0.25), 0.25);
    assert_f64_near(clamped.gen(3.0), 1.0);
    let piped = [0.5, 1.0].composite(Identity::new());
    assert_f64_near(piped.gen(1), 1.0);
}

#[test]
fn borrowed_generators() {
    let arr = [1, 2, 3];
    let borrowed = Generator::by_ref(&arr);
    assert_eq!(borrowed.gen(1), 2);
    assert_eq!(DiscreteGenerator::len(&borrowed), 3);
    let knots = [0.0, 1.0, 2.0];
    let sorted = Sorted::new(&knots).unwrap();
    assert_eq!(sorted.strict_upper_bound(0.5), 1);
}

#[test]
fn stack_domain_passes_over_nan_ends() {
    let identity = Identity {};
    let broken = TransformInput::new(identity, f64::NAN, 1.0);
    let narrow = TransformInput::new(identity, 0.0, 2.0);
    for domain in [Stack::new(broken, narrow).domain(), Stack::new(narrow, broken).domain()] {
        assert_f64_near(domain[0], 0.0);
        assert_f64_near(domain[1], 0.5);
    }
    let both = Stack::new(TransformInput::new(identity, 0.5, 1.0), narrow).domain();
    assert_f64_near(both[0], 0.0);
    assert_f64_near(both[1], 0.5);
}

#[test]
fn into_iter_yields_in_order_from_both_ends() {
    let mut forward = IntoIter::new([1, 2, 3]);
    let mut seen = Vec::new();
    while let Some(x) = forward.next() {
        seen.push(x);
    }
    assert_eq!(seen, vec![1, 2, 3]);
    assert_eq!(forward.next(), None);
    let mut backward = IntoIter::new([1, 2, 3]);
    let mut seen = Vec::new();
    while let Some(x) = backward.next_back() {
        seen.push(x);
    }
    assert_eq!(seen, vec![3, 2, 1]);
    assert_eq!(backward.size_hint(), (0, Some(0)));
}
