//! Linear and quasi-linear interpolations.
//!
//! A linear interpolation goes in straight lines from element to element, reaching each
//! element at its knot. Outside of the knots it extrapolates the first or last line.
//! With an easing function other than the identity, the output still lies on these lines but
//! the velocity along them changes: the interpolation is quasi-linear.
use vstd::prelude::*;
use core::ops::{Add, Mul};
use crate::base::{Interpolation, Generator, DiscreteGenerator, SortedGenerator, Curve, ConstEquidistant, gen_view};
use crate::easing::Identity;
use crate::base::list::{
    is_partition_point, border_indices, linear_factor_spec, linear_factor_unchecked_spec,
    searchable, lemma_partition_point_unique,
};
use vstd::std_specs::ops::{SubSpec, DivSpec};
use vstd::std_specs::cmp::{PartialEqSpec, PartialOrdIs};
use crate::builder::Unknown;
use crate::scalar::{
    Scalar, merge, merge_spec, scalar_ops_defined, scalar_exact, element_ops_defined,
    element_ops_obeyed, zero, one,
};

pub mod builder;
pub mod error;

pub use builder::{LinearBuilder, LinearDirector};
pub use error::{LinearError, TooFewElements, KnotElementInequality, NotSorted};

verus! {

/// The index of the first knot bigger than `x`, or the number of knots if there is none.
pub open spec fn knot_span<R: PartialOrd>(knots: Seq<R>, x: R) -> int {
    choose|p: int| #[trigger] is_partition_point(knots, x, 0, knots.len() as int, p)
}

/// The neighbouring knots whose line is used at `x`, and the factor of `x` between them:
/// the span containing `x`, or the first or last span if `x` lies outside of the knots.
pub open spec fn linear_position<R: Scalar>(knots: Seq<R>, x: R) -> (int, int, R) {
    let n = knots.len() as int;
    let p = knot_span(knots, x);
    let (i, j) = border_indices(p, n);
    let f = if p == n || p == 0 {
        linear_factor_spec(knots[i], knots[j], x)
    } else {
        linear_factor_unchecked_spec(knots[i], knots[j], x)
    };
    (i, j, f)
}

/// Linear interpolation.
#[derive(Debug, Copy, Clone)]
pub struct Linear<K, E, F> {
    elements: E,
    knots: K,
    easing: F,
}

impl<K, E, F> Linear<K, E, F> {
    /// The elements of the interpolation.
    pub closed spec fn elements(&self) -> E {
        self.elements
    }

    /// The knots of the interpolation.
    pub closed spec fn knots(&self) -> K {
        self.knots
    }

    /// The easing of the interpolation.
    pub closed spec fn easing(&self) -> F {
        self.easing
    }
}

impl Linear<Unknown, Unknown, Unknown> {
    /// Get a builder for linear interpolations.
    pub fn builder() -> (r: LinearBuilder<Unknown, Unknown, crate::easing::Identity, Unknown>)
        ensures
            r.state() is Ok,
    {
        LinearBuilder::new()
    }
}

impl<K, E, F> Linear<K, E, F> where K: SortedGenerator, E: DiscreteGenerator {
    /// There are at least two elements and as many knots as elements.
    pub open spec fn wf(&self) -> bool {
        &&& self.elements().len_spec() >= 2
        &&& self.knots().len_spec() == self.elements().len_spec()
    }

    /// Create a linear interpolation.
    ///
    /// # Errors
    ///
    /// [`ToFewElements`] if there are less than two elements.
    /// [`KnotElementInequality`] if the number of knots is not equal to the number of elements.
    pub fn new(elements: E, knots: K, easing: F) -> (r: Result<Self, LinearError>)
        ensures
            elements.len_spec() < 2 ==> (r matches Err(LinearError::ToFewElements(err))
                && err.found_spec() == elements.len_spec()),
            elements.len_spec() >= 2 && knots.len_spec() != elements.len_spec() ==> (r matches Err(
                LinearError::KnotElementInequality(err),
            ) && err.elements_spec() == elements.len_spec() && err.knots_spec()
                == knots.len_spec()),
            elements.len_spec() >= 2 && knots.len_spec() == elements.len_spec() ==> (r matches Ok(
                l,
            ) && l.wf() && l.elements() == elements && l.knots() == knots && l.easing()
                == easing),
    {
        let e = elements.len();
        if e < 2 {
            return Err(LinearError::from(TooFewElements::new(e)));
        }
        let k = knots.len();
        if k != e {
            return Err(LinearError::from(KnotElementInequality::new(e, k)));
        }
        Ok(Linear { elements, knots, easing })
    }

    /// Create a linear interpolation without checks.
    pub fn new_unchecked(elements: E, knots: K, easing: F) -> (r: Self)
        ensures
            r.elements() == elements,
            r.knots() == knots,
            r.easing() == easing,
    {
        Linear { elements, knots, easing }
    }
}

impl<R: Scalar, T, const N: usize> Linear<ConstEquidistant<R, N>, [T; N], Identity> {
    /// Create a linear interpolation of the given elements with equidistant knots over
    /// `[0, 1]`, without checks; there have to be at least two elements.
    pub fn equidistant_unchecked(elements: [T; N]) -> (r: Self)
        requires
            scalar_ops_defined::<R>(),
        ensures
            r.elements() == elements,
            r.easing() == (Identity {}),
    {
        Linear { elements, knots: ConstEquidistant::new(), easing: Identity::new() }
    }
}

impl<K, E, F, R> Generator<R> for Linear<K, E, F> where
    K: SortedGenerator<Output = R>,
    E: DiscreteGenerator,
    E::Output: Add<Output = E::Output> + Mul<R, Output = E::Output> + Copy,
    F: Generator<R, Output = R>,
    R: Scalar,
 {
    type Output = E::Output;

    open spec fn accepts(&self, input: R) -> bool {
        &&& self.wf()
        &&& element_ops_defined::<E::Output, R>()
        &&& scalar_ops_defined::<R>()
        &&& forall|y: R| #[trigger] self.easing().accepts(y)
    }

    /// The elements of the span at `input` merged by the eased factor of `input` in the span.
    open spec fn gen_spec(&self, input: R) -> E::Output {
        let (i, j, f) = linear_position(gen_view(&self.knots()), input);
        merge_spec(
            self.elements().gen_spec(i as usize),
            self.elements().gen_spec(j as usize),
            self.easing().gen_spec(f),
        )
    }

    open spec fn exact(&self) -> bool {
        &&& self.elements().exact()
        &&& self.knots().exact()
        &&& self.easing().exact()
        &&& element_ops_obeyed::<E::Output, R>()
        &&& scalar_exact::<R>()
        &&& searchable(gen_view(&self.knots()), 0, self.knots().len_spec() as int)
    }

    fn gen(&self, scalar: R) -> (r: E::Output) {
        let (min_index, max_index, factor) = self.knots.upper_border(scalar);
        proof {
            self.elements().lemma_accepts(min_index);
            self.elements().lemma_accepts(max_index);
            assert(self.easing().accepts(factor));
            if self.exact() {
                let kv = gen_view(&self.knots());
                assert(crate::base::list::monotone_below(kv, scalar, 0, kv.len() as int));
                let p = knot_span(kv, scalar);
                assert(is_partition_point(kv, scalar, 0, kv.len() as int, p));
            }
        }
        let min_point = self.elements.gen(min_index);
        let max_point = self.elements.gen(max_index);
        let eased = self.easing.gen(factor);
        merge(min_point, max_point, eased)
    }
}

impl<K, E, F, R> Curve<R> for Linear<K, E, F> where
    K: SortedGenerator<Output = R>,
    E: DiscreteGenerator,
    E::Output: Add<Output = E::Output> + Mul<R, Output = E::Output> + Copy,
    F: Generator<R, Output = R>,
    R: Scalar,
 {
    /// From the first to the last knot.
    open spec fn domain_spec(&self) -> [R; 2] {
        [
            self.knots().gen_spec(0),
            self.knots().gen_spec((self.knots().len_spec() - 1) as usize),
        ]
    }

    open spec fn has_domain(&self) -> bool {
        self.wf()
    }

    fn domain(&self) -> (r: [R; 2]) {
        let first = self.knots.first().unwrap();
        let last = self.knots.last().unwrap();
        [first, last]
    }
}

/// A linear interpolation gives a value for every input as soon as it gives one for any input: sampling
/// never fails because of the input, outside of the domain the curve extrapolates.
pub proof fn law_linear_samples_every_input<K, E, F, R>(curve: Linear<K, E, F>, x: R, y: R) where
    K: SortedGenerator<Output = R>,
    E: DiscreteGenerator,
    E::Output: Add<Output = E::Output> + Mul<R, Output = E::Output> + Copy,
    F: Generator<R, Output = R>,
    R: Scalar,

    requires
        curve.accepts(x),
    ensures
        curve.accepts(y),
{
}


/// A linear interpolation reaches each element at its knot: at the knot `t[i]`, where exactly
/// the knots up to `i` are at most `t[i]`, the value is the `i`-th element. This rests on the
/// arithmetic at that point: the factor of `t[i]` in its span is zero (in the last span, where
/// the factor of the last knot is a nonzero difference divided by itself, one), the easing keeps
/// zero and one, and merging with factor zero (one) gives the first (second) element.
pub proof fn law_linear_meets_elements_at_knots<K, E, F, R>(curve: Linear<K, E, F>, i: int) where
    K: SortedGenerator<Output = R>,
    E: DiscreteGenerator,
    E::Output: Add<Output = E::Output> + Mul<R, Output = E::Output> + Copy,
    F: Generator<R, Output = R>,
    R: Scalar,

    requires
        curve.wf(),
        0 <= i < curve.knots().len_spec(),
        ({
            let t = gen_view(&curve.knots());
            let n = t.len() as int;
            let x = t[i];
            let d = t[n - 1].sub_spec(t[n - 2]);
            &&& forall|j: int| #![trigger t[j]] 0 <= j < n ==> (x.is_ge(&t[j]) <==> j <= i)
            &&& i + 1 < n ==> x.sub_spec(x).div_spec(t[i + 1].sub_spec(x)) == zero::<R>()
            &&& i + 1 == n ==> !d.eq_spec(&zero::<R>()) && d.div_spec(d) == one::<R>()
        }),
        curve.easing().gen_spec(zero::<R>()) == zero::<R>(),
        curve.easing().gen_spec(one::<R>()) == one::<R>(),
        forall|a: E::Output, b: E::Output| #[trigger] merge_spec(a, b, zero::<R>()) == a,
        forall|a: E::Output, b: E::Output| #[trigger] merge_spec(a, b, one::<R>()) == b,
    ensures
        curve.gen_spec(gen_view(&curve.knots())[i]) == curve.elements().gen_spec(i as usize),
{
    let t = gen_view(&curve.knots());
    let n = t.len() as int;
    let x = t[i];
    assert(is_partition_point(t, x, 0, n, i + 1));
    let p = knot_span(t, x);
    assert(is_partition_point(t, x, 0, n, p));
    lemma_partition_point_unique(t, x, 0, n, p, i + 1);
    let (a, b, f) = linear_position(t, x);
    if i + 1 < n {
        assert(border_indices(i + 1, n) == (i, i + 1));
        assert(f == zero::<R>());
        assert(a == i && b == i + 1);
    } else {
        assert(border_indices(n, n) == (n - 2, n - 1));
        assert(f == one::<R>());
        assert(a == n - 2 && b == n - 1);
    }
}

impl<K, E, F, R> Interpolation<R> for Linear<K, E, F> where
    K: SortedGenerator<Output = R>,
    E: DiscreteGenerator,
    E::Output: Add<Output = E::Output> + Mul<R, Output = E::Output> + Copy,
    F: Generator<R, Output = R>,
    R: Scalar,
 {
}

} // verus!
