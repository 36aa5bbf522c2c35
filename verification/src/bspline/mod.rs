//! Basis spline curves.
//!
//! BSplines can be seen as many bezier curves put together. Changing an element in a bspline
//! only affects a local area of the curve.
use vstd::prelude::*;
use vstd::std_specs::ops::{SubSpec, DivSpec};
use vstd::std_specs::cmp::PartialOrdIs;
use core::ops::{Add, Mul};
use crate::base::{Interpolation, Generator, DiscreteGenerator, SortedGenerator, Curve, Space, Workspace, gen_view};
use crate::builder::Unknown;
use crate::base::list::{is_partition_point, monotone_below, lemma_partition_point_unique, searchable, linear_factor_unchecked_spec};
use crate::scalar::{
    Scalar, merge, merge_spec, scalar_ops_defined, scalar_exact, element_ops_defined,
    element_ops_obeyed, zero, one,
};

pub mod builder;
pub mod error;
pub mod adaptors;

pub use error::{BSplineError, InvalidDegree, TooSmallWorkspace, NotSorted, TooFewElements};
pub use adaptors::{BorderBuffer, BorderDeletion};
pub use builder::{BSplineBuilder, BSplineDirector, Open, Clamped, Legacy, UnknownDomain};

verus! {

/// The factor with which the `j`-th pair is merged in round `r` of de Boor's algorithm.
pub open spec fn deboor_factor<R: Scalar>(
    knots: Seq<R>,
    x: R,
    index: int,
    degree: int,
    r: int,
    j: int,
) -> R {
    let i = j + r + index - degree;
    x.sub_spec(knots[i - 1]).div_spec(knots[i + degree - r].sub_spec(knots[i - 1]))
}

/// The points after `r` rounds of de Boor's algorithm for the knot span ending at `index`.
pub open spec fn deboor_level<E, R>(
    elements: Seq<E>,
    knots: Seq<R>,
    x: R,
    index: int,
    degree: int,
    r: nat,
) -> Seq<E>
    where
        E: Add<Output = E> + Mul<R, Output = E>,
        R: Scalar,
    decreases r,
{
    if r == 0 {
        elements.subrange(index - degree, index + 1)
    } else {
        let prev = deboor_level(elements, knots, x, index, degree, (r - 1) as nat);
        Seq::new(
            (degree - r + 1) as nat,
            |j: int| merge_spec(prev[j], prev[j + 1], deboor_factor(knots, x, index, degree, r as int, j)),
        )
    }
}

/// The value of the bspline of the given degree at `x` in the knot span ending at `index`.
pub open spec fn deboor<E, R>(elements: Seq<E>, knots: Seq<R>, x: R, index: int, degree: int) -> E
    where
        E: Add<Output = E> + Mul<R, Output = E>,
        R: Scalar,
{
    deboor_level(elements, knots, x, index, degree, degree as nat)[0]
}


/// BSpline curve.
#[derive(Debug, Copy, Clone)]
pub struct BSpline<K, E, S> {
    elements: E,
    knots: K,
    space: S,
    degree: usize,
}

impl<K, E, S> BSpline<K, E, S> {
    /// The elements of the curve.
    pub closed spec fn elements(&self) -> E {
        self.elements
    }

    /// The knots of the curve.
    pub closed spec fn knots(&self) -> K {
        self.knots
    }

    /// The workspace of the curve.
    pub closed spec fn space(&self) -> S {
        self.space
    }

    /// The degree of the curve.
    pub closed spec fn degree(&self) -> usize {
        self.degree
    }
}

/// What creating a bspline of the given elements, knots and workspace results in: the degree
/// is `knots - elements + 1`, and the errors are checked in the order too few elements, invalid
/// degree, too small workspace.
pub open spec fn new_outcome<K, E, S>(
    r: Result<BSpline<K, E, S>, BSplineError>,
    elements: E,
    knots: K,
    space: S,
) -> bool where E: DiscreteGenerator, K: SortedGenerator, S: Space<E::Output> {
    let e = elements.len_spec() as int;
    let k = knots.len_spec() as int;
    let s = space.len_spec() as int;
    &&& e < 2 ==> (r matches Err(BSplineError::TooFewElements(err)) && err.found_spec() == e)
    &&& 2 <= e && (k < e || k + 2 > 2 * e) ==> (r matches Err(BSplineError::InvalidDegree(err))
        && err.degree_spec() == k - e + 1)
    &&& 2 <= e <= k && k + 2 <= 2 * e && s <= k - e + 1 ==> (r matches Err(
        BSplineError::TooSmallWorkspace(err),
    ) && err.found_spec() == s && err.necessary_spec() == k - e + 1)
    &&& 2 <= e <= k && k + 2 <= 2 * e && s > k - e + 1 ==> (r matches Ok(b) && b.wf()
        && b.elements() == elements && b.knots() == knots && b.space() == space && b.degree()
        == k - e + 1)
}

impl<K, E, S> BSpline<K, E, S> where E: DiscreteGenerator, K: SortedGenerator, S: Space<E::Output> {
    /// The bspline has at least two elements, a degree between 1 and the number of elements
    /// minus one, one knot less than elements and degree together, and room for `degree + 1`
    /// elements in its workspace.
    pub open spec fn wf(&self) -> bool {
        let e = self.elements().len_spec();
        let k = self.knots().len_spec();
        let d = self.degree();
        &&& 2 <= e
        &&& 1 <= d < e
        &&& k == e + d - 1
        &&& k <= usize::MAX
        &&& self.space().len_spec() > d
    }

    /// Creates a bspline curve of the elements and knots given.
    ///
    /// The degree of the curve is `knots.len() - elements.len() + 1`.
    ///
    /// # Errors
    ///
    /// [`TooFewElements`] if there are less than two elements.
    /// [`InvalidDegree`] if the degree is not at least 1 and at most the number of elements - 1.
    /// [`TooSmallWorkspace`] if the workspace is not bigger than the degree of the curve.
    pub fn new(elements: E, knots: K, space: S) -> (r: Result<Self, BSplineError>)
        requires
            elements.len_spec() <= isize::MAX,
            knots.len_spec() <= isize::MAX,
        ensures
            new_outcome(r, elements, knots, space),
    {
        let e = elements.len();
        let k = knots.len();
        if e < 2 {
            return Err(BSplineError::TooFewElements(TooFewElements::new(e)));
        }
        if k < e || k + 2 > 2 * e {
            let degree = k as isize - e as isize + 1;
            return Err(BSplineError::InvalidDegree(InvalidDegree::new(degree)));
        }
        let degree = k - e + 1;
        let s = space.len();
        if s <= degree {
            return Err(BSplineError::TooSmallWorkspace(TooSmallWorkspace::new(s, degree)));
        }
        Ok(BSpline { elements, knots, space, degree })
    }

    /// Creates a bspline curve of the elements and knots given, without checks.
    ///
    /// The degree of the curve is `knots.len() - elements.len() + 1`; it has to be at least 1
    /// for the curve to be usable.
    pub fn new_unchecked(elements: E, knots: K, space: S) -> (r: Self)
        requires
            elements.len_spec() <= knots.len_spec(),
            knots.len_spec() - elements.len_spec() < usize::MAX,
        ensures
            r.elements() == elements,
            r.knots() == knots,
            r.space() == space,
            r.degree() == knots.len_spec() - elements.len_spec() + 1,
    {
        let degree = knots.len() - elements.len() + 1;
        BSpline { elements, knots, space, degree }
    }

    /// Creates a workspace and copies `degree + 1` elements into it, starting at
    /// `index - degree`.
    fn workspace(&self, index: usize) -> (r: S::Output)
        requires
            self.wf(),
            self.degree() <= index < self.elements().len_spec(),
        ensures
            r.buffer().len() == self.space().len_spec(),
            self.elements().exact() ==> r.buffer().subrange(0, self.degree() + 1)
                == gen_view(&self.elements()).subrange(
                index - self.degree(),
                index + 1,
            ),
    {
        let mut workspace = self.space.workspace();
        let mut i: usize = 0;
        while i <= self.degree
            invariant
                self.wf(),
                self.degree() <= index < self.elements().len_spec(),
                self.elements().len_spec() <= usize::MAX,
                i <= self.degree + 1,
                workspace.buffer().len() == self.space().len_spec(),
                self.elements().exact() ==> forall|t: int|
                    0 <= t < i ==> #[trigger] workspace.buffer()[t] == gen_view(
                        &self.elements(),
                    )[index - self.degree() + t],
            decreases self.degree + 1 - i,
        {
            proof {
                self.elements.lemma_accepts((index - self.degree + i) as usize);
            }
            let value = self.elements.gen(index - self.degree + i);
            workspace.write(i, value);
            i = i + 1;
        }
        proof {
            if self.elements().exact() {
                assert(workspace.buffer().subrange(0, self.degree() + 1) =~= gen_view(
                    &self.elements(),
                ).subrange(index - self.degree(), index + 1));
            }
        }
        workspace
    }
}


impl<K, E, S> BSpline<K, E, S> where E: DiscreteGenerator, K: SortedGenerator, S: Space<E::Output> {
    /// The knot span searched for `x`: the partition point of the knots between `degree` and
    /// `knots.len() - degree`.
    pub open spec fn span(&self, x: K::Output) -> int where K::Output: PartialOrd {
        choose|p: int|
            #[trigger] is_partition_point(
                gen_view(&self.knots()),
                x,
                self.degree() as int,
                self.knots().len_spec() - self.degree(),
                p,
            )
    }
}

impl<K, E, S, R> Generator<R> for BSpline<K, E, S> where
    E: DiscreteGenerator,
    E::Output: Copy + Add<Output = E::Output> + Mul<R, Output = E::Output>,
    S: Space<E::Output>,
    R: Scalar,
    K: SortedGenerator<Output = R>,
 {
    type Output = E::Output;

    open spec fn accepts(&self, input: R) -> bool {
        &&& self.wf()
        &&& element_ops_defined::<E::Output, R>()
        &&& scalar_ops_defined::<R>()
    }

    open spec fn gen_spec(&self, input: R) -> E::Output {
        deboor(
            gen_view(&self.elements()),
            gen_view(&self.knots()),
            input,
            self.span(input),
            self.degree() as int,
        )
    }

    open spec fn exact(&self) -> bool {
        &&& self.elements().exact()
        &&& self.knots().exact()
        &&& element_ops_obeyed::<E::Output, R>()
        &&& scalar_exact::<R>()
        &&& searchable(
            gen_view(&self.knots()),
            self.degree() as int,
            self.knots().len_spec() - self.degree(),
        )
    }

    fn gen(&self, scalar: R) -> (r: E::Output) {
        let degree = self.degree;
        let lower_cut = degree;
        let upper_cut = self.knots.len() - degree;
        let index = self.knots.strict_upper_bound_clamped(scalar, lower_cut, upper_cut);
        let ghost ex = self.exact();
        let ghost ev = gen_view(&self.elements());
        let ghost kv = gen_view(&self.knots());
        proof {
            if ex {
                assert(monotone_below(kv, scalar, lower_cut as int, upper_cut as int));
            }
        }
        let mut workspace = self.workspace(index);
        let mut r: usize = 1;
        while r <= degree
            invariant
                self.accepts(scalar),
                ex == self.exact(),
                ev == gen_view(&self.elements()),
                kv == gen_view(&self.knots()),
                degree == self.degree(),
                degree <= index < self.elements().len_spec(),
                1 <= r <= degree + 1,
                workspace.buffer().len() == self.space().len_spec(),
                ex ==> workspace.buffer().subrange(0, degree - r + 2) == deboor_level(
                    ev,
                    kv,
                    scalar,
                    index as int,
                    degree as int,
                    (r - 1) as nat,
                ),
            decreases degree + 1 - r,
        {
            let ghost prev = deboor_level(ev, kv, scalar, index as int, degree as int, (r - 1) as nat);
            let ghost next = deboor_level(ev, kv, scalar, index as int, degree as int, r as nat);
            let mut j: usize = 0;
            while j <= degree - r
                invariant
                    self.accepts(scalar),
                    ex == self.exact(),
                    ev == gen_view(&self.elements()),
                    kv == gen_view(&self.knots()),
                    degree == self.degree(),
                    degree <= index < self.elements().len_spec(),
                    1 <= r <= degree,
                    j <= degree - r + 1,
                    workspace.buffer().len() == self.space().len_spec(),
                    prev == deboor_level(ev, kv, scalar, index as int, degree as int, (r - 1) as nat),
                    next == deboor_level(ev, kv, scalar, index as int, degree as int, r as nat),
                    ex ==> forall|t: int| 0 <= t < j ==> #[trigger] workspace.buffer()[t] == next[t],
                    ex ==> forall|t: int|
                        j <= t < degree - r + 2 ==> #[trigger] workspace.buffer()[t] == prev[t],
                decreases degree - r + 1 - j,
            {
                let i = j + r + index - degree;
                proof {
                    self.knots.lemma_accepts((i - 1) as usize);
                    self.knots.lemma_accepts((i + degree - r) as usize);
                }
                let low = self.knots.gen(i - 1);
                let high = self.knots.gen(i + degree - r);
                let factor = (scalar - low) / (high - low);
                let first = workspace.read(j);
                let second = workspace.read(j + 1);
                let merged = merge(first, second, factor);
                proof {
                    if ex {
                        assert(factor == deboor_factor(kv, scalar, index as int, degree as int, r as int, j as int));
                        assert(merged == next[j as int]);
                    }
                }
                workspace.write(j, merged);
                j = j + 1;
            }
            proof {
                if ex {
                    assert(workspace.buffer().subrange(0, degree - r + 1) =~= next);
                }
            }
            r = r + 1;
        }
        let result = workspace.read(0);
        proof {
            if ex {
                let hi = self.knots().len_spec() - degree;
                lemma_partition_point_unique(kv, scalar, degree as int, hi, self.span(scalar), index as int);
            }
        }
        result
    }
}

impl<K, E, S, R> Curve<R> for BSpline<K, E, S> where
    E: DiscreteGenerator,
    E::Output: Copy + Add<Output = E::Output> + Mul<R, Output = E::Output>,
    S: Space<E::Output>,
    R: Scalar,
    K: SortedGenerator<Output = R>,
 {
    open spec fn domain_spec(&self) -> [R; 2] {
        [
            self.knots().gen_spec((self.degree() - 1) as usize),
            self.knots().gen_spec((self.knots().len_spec() - self.degree()) as usize),
        ]
    }

    open spec fn has_domain(&self) -> bool {
        self.wf()
    }

    fn domain(&self) -> (r: [R; 2]) {
        proof {
            self.knots().lemma_accepts((self.degree() - 1) as usize);
            self.knots().lemma_accepts((self.knots().len_spec() - self.degree()) as usize);
        }
        let n = self.knots.len();
        let first = self.knots.gen(self.degree - 1);
        let last = self.knots.gen(n - self.degree);
        [first, last]
    }
}

/// A bspline is determined by the sequences of its elements and knots and its degree: two
/// bsplines which agree in these compute the same values, whatever generators and workspaces
/// they use. So the open, clamped and legacy modes give the same curve for knots which are the
/// same after repeating or dropping the border knots.
pub proof fn law_bspline_determined_by_views<K1, E1, S1, K2, E2, S2, R>(
    a: BSpline<K1, E1, S1>,
    b: BSpline<K2, E2, S2>,
    x: R,
) where
    E1: DiscreteGenerator,
    E2: DiscreteGenerator<Output = E1::Output>,
    E1::Output: Copy + Add<Output = E1::Output> + Mul<R, Output = E1::Output>,
    S1: Space<E1::Output>,
    S2: Space<E1::Output>,
    R: Scalar,
    K1: SortedGenerator<Output = R>,
    K2: SortedGenerator<Output = R>,

    requires
        gen_view(&a.elements()) == gen_view(&b.elements()),
        gen_view(&a.knots()) == gen_view(&b.knots()),
        a.degree() == b.degree(),
    ensures
        a.gen_spec(x) == b.gen_spec(x),
{
    assert(a.knots().len_spec() == gen_view(&a.knots()).len());
    assert(b.knots().len_spec() == gen_view(&b.knots()).len());
    assert(a.span(x) == b.span(x));
}

/// A bspline gives a value for every input as soon as it gives one for any input: sampling
/// never fails because of the input, outside of the domain the curve extrapolates.
pub proof fn law_bspline_samples_every_input<K, E, S, R>(curve: BSpline<K, E, S>, x: R, y: R) where
    E: DiscreteGenerator,
    E::Output: Copy + Add<Output = E::Output> + Mul<R, Output = E::Output>,
    S: Space<E::Output>,
    R: Scalar,
    K: SortedGenerator<Output = R>,

    requires
        curve.accepts(x),
    ensures
        curve.accepts(y),
{
}


/// While the first `degree` knots are all `x` and merging with factor zero keeps the first
/// element, each round of de Boor's algorithm at `x` in the first span starts with the first
/// element.
proof fn lemma_deboor_first<E, R>(elements: Seq<E>, knots: Seq<R>, x: R, degree: int, r: nat)
    where
        E: Add<Output = E> + Mul<R, Output = E>,
        R: Scalar,
    requires
        1 <= degree,
        r <= degree,
        degree + 1 <= elements.len(),
        degree < knots.len(),
        forall|i: int| 0 <= i < degree ==> #[trigger] knots[i] == x,
        x.sub_spec(x).div_spec(knots[degree].sub_spec(x)) == zero::<R>(),
        forall|a: E, b: E| #[trigger] merge_spec(a, b, zero::<R>()) == a,
    ensures
        deboor_level(elements, knots, x, degree, degree, r).len() == degree - r + 1,
        deboor_level(elements, knots, x, degree, degree, r)[0] == elements[0],
    decreases r,
{
    if r > 0 {
        lemma_deboor_first(elements, knots, x, degree, (r - 1) as nat);
        let prev = deboor_level(elements, knots, x, degree, degree, (r - 1) as nat);
        assert(knots[r - 1] == x);
        assert(deboor_factor(knots, x, degree, degree, r as int, 0) == zero::<R>());
        assert(merge_spec(prev[0], prev[1], zero::<R>()) == prev[0]);
    }
}

/// While the last `degree` knots are all `x`, the knot before them is `c`, and merging with
/// factor one keeps the second element, each round of de Boor's algorithm at `x` in the last
/// span ends with the last element.
proof fn lemma_deboor_last<E, R>(elements: Seq<E>, knots: Seq<R>, x: R, degree: int, r: nat)
    where
        E: Add<Output = E> + Mul<R, Output = E>,
        R: Scalar,
    requires
        1 <= degree,
        r <= degree,
        elements.len() > degree,
        knots.len() == elements.len() + degree - 1,
        forall|i: int| knots.len() - degree <= i < knots.len() ==> #[trigger] knots[i] == x,
        ({
            let c = knots[knots.len() - degree - 1];
            x.sub_spec(c).div_spec(x.sub_spec(c)) == one::<R>()
        }),
        forall|a: E, b: E| #[trigger] merge_spec(a, b, one::<R>()) == b,
    ensures
        deboor_level(elements, knots, x, elements.len() - 1, degree, r).len() == degree - r + 1,
        deboor_level(elements, knots, x, elements.len() - 1, degree, r)[degree - r]
            == elements[elements.len() - 1],
    decreases r,
{
    let index = elements.len() - 1;
    if r > 0 {
        lemma_deboor_last(elements, knots, x, degree, (r - 1) as nat);
        let prev = deboor_level(elements, knots, x, index, degree, (r - 1) as nat);
        let j = degree - r;
        assert(knots[index + degree - r] == x);
        assert(deboor_factor(knots, x, index, degree, r as int, j) == one::<R>());
        assert(merge_spec(prev[j], prev[j + 1], one::<R>()) == prev[j + 1]);
    }
}

/// A clamped bspline starts at its first element and ends at its last: where the first
/// `degree` knots are equal and all later ones greater, and the last `degree` knots are equal
/// and all knots at most them, the curve at the start of its domain is the first element and at
/// the end the last. This rests on the scalar and element arithmetic at the ends: `x - x`
/// divided by a difference is zero, a nonzero difference divided by itself is one, and merging
/// with factor zero (one) gives the first (second) element.
pub proof fn law_clamped_bspline_meets_end_elements<K, E, S, R>(curve: BSpline<K, E, S>) where
    E: DiscreteGenerator,
    E::Output: Copy + Add<Output = E::Output> + Mul<R, Output = E::Output>,
    S: Space<E::Output>,
    R: Scalar,
    K: SortedGenerator<Output = R>,

    requires
        curve.wf(),
        ({
            let kv = gen_view(&curve.knots());
            let p = curve.degree() as int;
            let first = kv[0];
            let last = kv[kv.len() - 1];
            let before_last = kv[kv.len() - p - 1];
            &&& forall|i: int| 0 <= i < p ==> #[trigger] kv[i] == first
            &&& forall|i: int| #![trigger kv[i]] p <= i < kv.len() ==> !first.is_ge(&kv[i])
            &&& forall|i: int| kv.len() - p <= i < kv.len() ==> #[trigger] kv[i] == last
            &&& forall|i: int| #![trigger kv[i]] 0 <= i < kv.len() ==> last.is_ge(&kv[i])
            &&& first.sub_spec(first).div_spec(kv[p].sub_spec(first)) == zero::<R>()
            &&& last.sub_spec(before_last).div_spec(last.sub_spec(before_last)) == one::<R>()
        }),
        forall|a: E::Output, b: E::Output| #[trigger] merge_spec(a, b, zero::<R>()) == a,
        forall|a: E::Output, b: E::Output| #[trigger] merge_spec(a, b, one::<R>()) == b,
    ensures
        curve.gen_spec(curve.domain_spec()[0]) == gen_view(&curve.elements())[0],
        curve.gen_spec(curve.domain_spec()[1]) == gen_view(&curve.elements())[
            curve.elements().len_spec() - 1
        ],
{
    let kv = gen_view(&curve.knots());
    let ev = gen_view(&curve.elements());
    let p = curve.degree() as int;
    let k = kv.len() as int;
    let hi = k - p;
    let first = kv[0];
    let last = kv[k - 1];
    assert(curve.domain_spec()[0] == kv[p - 1]);
    assert(curve.domain_spec()[1] == kv[hi]);
    assert(is_partition_point(kv, first, p, hi, p));
    assert(is_partition_point(kv, last, p, hi, hi));
    let s0 = curve.span(first);
    let s1 = curve.span(last);
    lemma_partition_point_unique(kv, first, p, hi, s0, p);
    lemma_partition_point_unique(kv, last, p, hi, s1, hi);
    lemma_deboor_first(ev, kv, first, p, p as nat);
    lemma_deboor_last(ev, kv, last, p, p as nat);
}

/// The domain of a bspline of degree `p` with `k` knots `t` is `[t[p - 1], t[k - p]]`: the
/// knots which bound the spans searched, where all `p + 1` basis functions are active, not the
/// first and last knot.
pub proof fn law_bspline_domain_within_knots<K, E, S, R>(curve: BSpline<K, E, S>) where
    E: DiscreteGenerator,
    E::Output: Copy + Add<Output = E::Output> + Mul<R, Output = E::Output>,
    S: Space<E::Output>,
    R: Scalar,
    K: SortedGenerator<Output = R>,

    requires
        curve.wf(),
    ensures
        ({
            let t = gen_view(&curve.knots());
            let p = curve.degree() as int;
            let k = t.len() as int;
            &&& 1 <= p && p - 1 < k - p < k
            &&& curve.domain_spec()[0] == t[p - 1]
            &&& curve.domain_spec()[1] == t[k - p]
        }),
{
}

/// A bspline of degree one is the linear interpolation of its elements over its knots: in the
/// span ending at knot `s` found for `x`, the value merges the elements `s - 1` and `s` with the
/// linear factor of `x` between the knots `s - 1` and `s`.
pub proof fn law_bspline_degree_one_is_linear<K, E, S, R>(curve: BSpline<K, E, S>, x: R) where
    E: DiscreteGenerator,
    E::Output: Copy + Add<Output = E::Output> + Mul<R, Output = E::Output>,
    S: Space<E::Output>,
    R: Scalar,
    K: SortedGenerator<Output = R>,

    requires
        curve.wf(),
        curve.degree() == 1,
        exists|q: int|
            #[trigger] is_partition_point(
                gen_view(&curve.knots()),
                x,
                1,
                curve.knots().len_spec() - 1,
                q,
            ),
    ensures
        ({
            let t = gen_view(&curve.knots());
            let e = gen_view(&curve.elements());
            let s = curve.span(x);
            &&& 1 <= s <= t.len() - 1
            &&& curve.gen_spec(x) == merge_spec(
                e[s - 1],
                e[s],
                linear_factor_unchecked_spec(t[s - 1], t[s], x),
            )
        }),
{
    let t = gen_view(&curve.knots());
    let e = gen_view(&curve.elements());
    let s = curve.span(x);
    assert(is_partition_point(t, x, 1, curve.knots().len_spec() - 1, s));
    let lvl0 = deboor_level(e, t, x, s, 1, 0);
    assert(lvl0 == e.subrange(s - 1, s + 1));
    assert(lvl0[0] == e[s - 1]);
    assert(lvl0[1] == e[s]);
    assert(deboor_factor(t, x, s, 1, 1, 0) == linear_factor_unchecked_spec(t[s - 1], t[s], x));
    reveal_with_fuel(deboor_level, 2);
}

impl<K, E, S, R> Interpolation<R> for BSpline<K, E, S> where
    E: DiscreteGenerator,
    E::Output: Copy + Add<Output = E::Output> + Mul<R, Output = E::Output>,
    S: Space<E::Output>,
    R: Scalar,
    K: SortedGenerator<Output = R>,
 {
}

} // verus!
