//! Sorted generators: binary search over knots, the `Sorted` wrapper and its error.
use vstd::prelude::*;
use vstd::std_specs::cmp::{PartialEqSpec, PartialOrdIs};
use vstd::std_specs::ops::{SubSpec, DivSpec, MulSpec, AddSpec};
use core::marker::PhantomData;
use crate::scalar::{
    Scalar, scalar_ops_defined, scalar_ops_obeyed, scalar_exact, zero, one, order_obeyed, scalar_of,
    scalar_from_usize, counting_laws, law_equidistant_steps, interval_laws,
};
use super::{Generator, DiscreteGenerator, ConstDiscreteGenerator, gen_view};

verus! {

/// All elements of `s` in `[lo, hi)` which are at most `element` come before those which are not.
pub open spec fn monotone_below<T: PartialOrd>(s: Seq<T>, element: T, lo: int, hi: int) -> bool {
    forall|i: int, j: int|
        #![trigger s[i], s[j]]
        lo <= i <= j < hi && element.is_ge(&s[j]) ==> element.is_ge(&s[i])
}

/// `p` is the smallest index in `[lo, hi]` whose element in `s` is bigger than `element`
/// (or `hi` if there is none).
pub open spec fn is_partition_point<T: PartialOrd>(
    s: Seq<T>,
    element: T,
    lo: int,
    hi: int,
    p: int,
) -> bool {
    &&& lo <= p <= hi
    &&& forall|i: int| #![trigger s[i]] lo <= i < p ==> element.is_ge(&s[i])
    &&& forall|i: int| #![trigger s[i]] p <= i < hi ==> !element.is_ge(&s[i])
}

/// Every input can be searched in `[lo, hi)` of the knots.
pub open spec fn searchable<R: PartialOrd>(knots: Seq<R>, lo: int, hi: int) -> bool {
    forall|x: R| #[trigger] monotone_below(knots, x, lo, hi)
}

/// `a` is at most `b`.
pub open spec fn at_most<T: PartialOrd>(a: T, b: T) -> bool {
    a.is_le(&b)
}

/// The comparison of `T` is transitive, and `a >= b` means `b <= a`.
pub open spec fn transitive_order<T: PartialOrd>() -> bool {
    &&& forall|a: T, b: T, c: T|
        #![trigger at_most(a, b), at_most(b, c)]
        at_most(a, b) && at_most(b, c) ==> at_most(a, c)
    &&& forall|a: T, b: T| #![trigger at_most(b, a)] a.is_ge(&b) <==> at_most(b, a)
}

/// Each element of a sorted sequence is at most every later one.
#[verifier::spinoff_prover]
proof fn lemma_sorted_pairs<T: PartialOrd>(s: Seq<T>, i: int, j: int)
    requires
        is_sorted_seq(s),
        transitive_order::<T>(),
        forall|a: T| #[trigger] at_most(a, a),
        0 <= i <= j < s.len(),
    ensures
        at_most(s[i], s[j]),
    decreases j - i,
{
    if i == j {
        assert(at_most(s[i], s[i]));
    } else {
        assert(steps_up(s, j));
        assert(at_most(s[j - 1], s[j]));
        if i < j - 1 {
            lemma_sorted_pairs(s, i, j - 1);
            assert(at_most(s[i], s[j - 1]));
            assert(at_most(s[i], s[j]));
        }
    }
}

/// Sorted knots can be searched for any element, as long as the comparison is transitive and
/// reflexive: in the whole sequence and in every part of it, all knots at most the element come
/// before the others.
pub proof fn law_sorted_knots_are_searchable<T: PartialOrd>(s: Seq<T>)
    requires
        is_sorted_seq(s),
        transitive_order::<T>(),
        forall|a: T| #[trigger] at_most(a, a),
    ensures
        searchable(s, 0, s.len() as int),
        forall|lo: int, hi: int| 0 <= lo <= hi <= s.len() ==> #[trigger] searchable(s, lo, hi),
{
    assert forall|x: T| #[trigger] monotone_below(s, x, 0, s.len() as int) by {
        assert forall|i: int, j: int|
            #![trigger s[i], s[j]]
            0 <= i <= j < s.len() && x.is_ge(&s[j]) implies x.is_ge(&s[i]) by {
            lemma_sorted_pairs(s, i, j);
            assert(at_most(s[j], x));
            assert(at_most(s[i], x));
        }
    }
    assert forall|lo: int, hi: int| 0 <= lo <= hi <= s.len() implies #[trigger] searchable(
        s,
        lo,
        hi,
    ) by {
        assert forall|x: T| #[trigger] monotone_below(s, x, lo, hi) by {
            assert(monotone_below(s, x, 0, s.len() as int));
        }
    }
}

/// A partition point makes the sequence monotone around `element`.
pub proof fn lemma_partition_point_monotone<T: PartialOrd>(
    s: Seq<T>,
    element: T,
    lo: int,
    hi: int,
    p: int,
)
    requires
        is_partition_point(s, element, lo, hi, p),
    ensures
        monotone_below(s, element, lo, hi),
{
}

/// There is at most one partition point.
pub proof fn lemma_partition_point_unique<T: PartialOrd>(
    s: Seq<T>,
    element: T,
    lo: int,
    hi: int,
    p: int,
    q: int,
)
    requires
        is_partition_point(s, element, lo, hi, p),
        is_partition_point(s, element, lo, hi, q),
    ensures
        p == q,
{
    if p < q {
        assert(element.is_ge(&s[p]));
    } else if q < p {
        assert(element.is_ge(&s[q]));
    }
}

/// The element of `s` at `i - 1` is at most the one at `i`.
pub open spec fn steps_up<T: PartialOrd>(s: Seq<T>, i: int) -> bool {
    s[i - 1].is_le(&s[i])
}

/// Neighbouring elements of `s` are non-strictly increasing.
pub open spec fn is_sorted_seq<T: PartialOrd>(s: Seq<T>) -> bool {
    forall|i: int| 0 < i < s.len() ==> #[trigger] steps_up(s, i)
}

/// The values of `s` decrease from `index` to `index + 1`, and this is the first such place:
/// `s[index] <= s[index + 1]` fails, and `s[i - 1] <= s[i]` holds for every `i` up to `index`.
pub open spec fn first_unsorted<T: PartialOrd>(s: Seq<T>, index: int) -> bool {
    &&& 0 <= index && index + 1 < s.len()
    &&& !steps_up(s, index + 1)
    &&& forall|i: int| 0 < i <= index ==> #[trigger] steps_up(s, i)
}

/// The factor of `element` between `min` and `max`, or zero if `max - min` is zero.
pub open spec fn linear_factor_spec<R: Scalar>(min: R, max: R, element: R) -> R {
    let div = max.sub_spec(min);
    if div.eq_spec(&zero::<R>()) {
        div
    } else {
        element.sub_spec(min).div_spec(div)
    }
}

/// The factor of `element` between `min` and `max`, without a check for a zero divisor.
pub open spec fn linear_factor_unchecked_spec<R: Scalar>(min: R, max: R, element: R) -> R {
    element.sub_spec(min).div_spec(max.sub_spec(min))
}

/// The indices `upper_border` returns for the partition point `p` of a sequence of length `len`.
pub open spec fn border_indices(p: int, len: int) -> (int, int) {
    if p == len {
        (len - 2, len - 1)
    } else if p == 0 {
        (0, 1)
    } else {
        (p - 1, p)
    }
}

/// Trait to mark a discrete generator as sorted, with search functions over its elements.
///
/// The search functions find the right place for an element if the generated elements are sorted,
/// or more precisely, if all elements at most the searched one come before the others.
pub trait SortedGenerator: DiscreteGenerator {
    /// Returns the smallest index between `min` and `max` for which the corresponding element is
    /// bigger than the input. If all elements are smaller, the given maximum is returned.
    fn strict_upper_bound_clamped(&self, element: Self::Output, min: usize, max: usize) -> (r:
        usize)
        where
            Self::Output: PartialOrd + Copy,
        requires
            min <= max <= self.len_spec(),
        ensures
            min <= r <= max,
            self.exact() && order_obeyed::<Self::Output>()
                && monotone_below(gen_view(self), element, min as int, max as int)
                ==> is_partition_point(gen_view(self), element, min as int, max as int, r as int),
    {
        let mut pointer = min;
        let mut dist = max - min;
        while dist > 0
            invariant
                min <= pointer,
                pointer + dist <= max,
                max <= self.len_spec(),
                self.exact() && order_obeyed::<Self::Output>()
                    && monotone_below(gen_view(self), element, min as int, max as int) ==> {
                    &&& forall|i: int| #![trigger gen_view(self)[i]]
                        min <= i < pointer ==> element.is_ge(&gen_view(self)[i])
                    &&& forall|i: int| #![trigger gen_view(self)[i]]
                        pointer + dist <= i < max ==> !element.is_ge(&gen_view(self)[i])
                },
            decreases dist,
        {
            let step = dist / 2;
            let sample = pointer + step;
            proof {
                self.lemma_accepts(sample);
            }
            let value = self.gen(sample);
            let ghost view = gen_view(self);
            if element >= value {
                proof {
                    if self.exact() && order_obeyed::<Self::Output>() && monotone_below(
                        view,
                        element,
                        min as int,
                        max as int,
                    ) {
                        assert(view[sample as int] == value);
                        assert forall|i: int| #![trigger view[i]] min <= i <= sample implies element.is_ge(
                            &view[i],
                        ) by {
                            assert(view[sample as int] == value);
                        }
                    }
                }
                pointer = sample + 1;
                dist = dist - (step + 1);
            } else {
                proof {
                    if self.exact() && order_obeyed::<Self::Output>() && monotone_below(
                        view,
                        element,
                        min as int,
                        max as int,
                    ) {
                        assert(view[sample as int] == value);
                        assert forall|i: int| #![trigger view[i]] sample <= i < max implies !element.is_ge(
                            &view[i],
                        ) by {
                            assert(view[sample as int] == value);
                        }
                    }
                }
                dist = step;
            }
        }
        pointer
    }

    /// Returns the smallest index for which the corresponding element is bigger than the input.
    /// If all elements are smaller, this function returns the length.
    fn strict_upper_bound(&self, element: Self::Output) -> (r: usize)
        where
            Self::Output: PartialOrd + Copy,
        ensures
            r <= self.len_spec(),
            self.exact() && order_obeyed::<Self::Output>()
                && monotone_below(gen_view(self), element, 0, self.len_spec() as int)
                ==> is_partition_point(gen_view(self), element, 0, self.len_spec() as int, r as int),
    {
        let n = self.len();
        self.strict_upper_bound_clamped(element, 0, n)
    }

    /// Calculate the factor of `element` inbetween the elements at `min_index` and `max_index`.
    ///
    /// The division is not checked: if both elements are the same, the factor is whatever the
    /// division of zero by zero gives.
    fn linear_factor_unchecked(&self, min_index: usize, max_index: usize, element: Self::Output) -> (r:
        Self::Output)
        where
            Self::Output: Scalar,
        requires
            min_index < self.len_spec(),
            max_index < self.len_spec(),
            scalar_ops_defined::<Self::Output>(),
        ensures
            self.exact() && scalar_exact::<Self::Output>() ==> r == linear_factor_unchecked_spec(
                self.gen_spec(min_index),
                self.gen_spec(max_index),
                element,
            ),
    {
        proof {
            self.lemma_accepts(min_index);
            self.lemma_accepts(max_index);
        }
        let max = self.gen(max_index);
        let min = self.gen(min_index);
        (element - min) / (max - min)
    }

    /// Calculate the factor of `element` inbetween the elements at `min_index` and `max_index`.
    ///
    /// If both elements are the same, zero is returned.
    fn linear_factor(&self, min_index: usize, max_index: usize, element: Self::Output) -> (r:
        Self::Output)
        where
            Self::Output: Scalar,
        requires
            min_index < self.len_spec(),
            max_index < self.len_spec(),
            scalar_ops_defined::<Self::Output>(),
        ensures
            self.exact() && scalar_exact::<Self::Output>() ==> r == linear_factor_spec(
                self.gen_spec(min_index),
                self.gen_spec(max_index),
                element,
            ),
    {
        proof {
            self.lemma_accepts(min_index);
            self.lemma_accepts(max_index);
        }
        let max = self.gen(max_index);
        let min = self.gen(min_index);
        let div = max - min;
        if div == Self::Output::from(0u8) {
            return div;
        }
        (element - min) / div
    }

    /// Find the neighbouring indices whose elements enclose `element`, and the linear factor of
    /// `element` between them.
    ///
    /// If `element` is smaller or bigger than all elements, the first or last two indices are
    /// returned and the factor extrapolates.
    fn upper_border(&self, element: Self::Output) -> (r: (usize, usize, Self::Output))
        where
            Self::Output: Scalar,
        requires
            self.len_spec() >= 2,
            scalar_ops_defined::<Self::Output>(),
        ensures
            r.0 + 1 == r.1,
            r.1 < self.len_spec(),
            self.exact() && scalar_exact::<Self::Output>() ==> forall|p: int|
                #[trigger] is_partition_point(gen_view(self), element, 0, self.len_spec() as int, p)
                    ==> {
                    &&& (r.0 as int, r.1 as int) == border_indices(p, self.len_spec() as int)
                    &&& r.2 == if p == self.len_spec() || p == 0 {
                        linear_factor_spec(self.gen_spec(r.0), self.gen_spec(r.1), element)
                    } else {
                        linear_factor_unchecked_spec(
                            self.gen_spec(r.0),
                            self.gen_spec(r.1),
                            element,
                        )
                    }
                },
            self.exact() && scalar_exact::<Self::Output>() && monotone_below(
                gen_view(self),
                element,
                0,
                self.len_spec() as int,
            ) ==> exists|p: int|
                #[trigger] is_partition_point(gen_view(self), element, 0, self.len_spec() as int, p),
    {
        let max_index = self.strict_upper_bound(element);
        let n = self.len();
        proof {
            if self.exact() && scalar_exact::<Self::Output>() && monotone_below(
                gen_view(self),
                element,
                0,
                self.len_spec() as int,
            ) {
                assert(is_partition_point(gen_view(self), element, 0, self.len_spec() as int, max_index as int));
            }
        }
        proof {
            let view = gen_view(self);
            assert forall|p: int| #[trigger]
                is_partition_point(view, element, 0, self.len_spec() as int, p) && self.exact()
                && scalar_exact::<Self::Output>() implies p == max_index by {
                lemma_partition_point_monotone(view, element, 0, self.len_spec() as int, p);
                lemma_partition_point_unique(
                    view,
                    element,
                    0,
                    self.len_spec() as int,
                    p,
                    max_index as int,
                );
            }
        }
        if n == max_index {
            let max_index = n - 1;
            let min_index = max_index - 1;
            let f = self.linear_factor(min_index, max_index, element);
            return (min_index, max_index, f);
        }
        if max_index == 0 {
            let f = self.linear_factor(0, 1, element);
            return (0, 1, f);
        }
        let f = self.linear_factor_unchecked(max_index - 1, max_index, element);
        (max_index - 1, max_index, f)
    }
}

/// Error returned if the given knots are not sorted.
#[derive(Debug, Copy, Clone, PartialEq, Eq, Structural)]
pub struct NotSorted {
    index: usize,
}

impl NotSorted {
    /// Create a new error in which from index to index + 1 the values were decreasing.
    pub fn new(index: usize) -> (r: Self)
        ensures
            r.index_spec() == index,
    {
        NotSorted { index }
    }

    /// The index from which the values decrease to the next one.
    pub closed spec fn index_spec(&self) -> usize {
        self.index
    }

    /// The index from which the values decrease to the next one.
    pub fn index(&self) -> (r: usize)
        ensures
            r == self.index_spec(),
    {
        self.index
    }
}

/// Struct to represent a sorted collection.
#[derive(Debug, Copy, Clone, PartialEq)]
pub struct Sorted<C>(C);

impl<C> Sorted<C> {
    /// The wrapped collection.
    pub closed spec fn inner(&self) -> C {
        self.0
    }

    /// Creates a sorted collection without checking if it is sorted.
    ///
    /// An unsorted collection will not create undefined behaviour, but the searches will not
    /// find the right places.
    pub fn new_unchecked(col: C) -> (r: Self)
        ensures
            r.inner() == col,
    {
        Sorted(col)
    }
}

impl<C> Sorted<C> where C: DiscreteGenerator, C::Output: PartialOrd {
    /// Returns `Sorted` if the collection is sorted, otherwise a `NotSorted` error with the
    /// first index from which the elements decrease to the next one.
    pub fn new(col: C) -> (r: Result<Self, NotSorted>)
        ensures
            r matches Ok(s) ==> s.inner() == col,
            col.len_spec() < 2 ==> r is Ok,
            col.exact() && order_obeyed::<C::Output>() ==> {
                &&& r is Ok <==> is_sorted_seq(gen_view(&col))
                &&& r matches Err(e) ==> first_unsorted(gen_view(&col), e.index_spec() as int)
            },
    {
        if col.is_empty() {
            return Ok(Sorted(col));
        }
        proof {
            col.lemma_accepts(0);
        }
        let ghost view = gen_view(&col);
        let ghost checked = col.exact() && order_obeyed::<C::Output>();
        let mut last = col.gen(0);
        let n = col.len();
        let mut i: usize = 1;
        while i < n
            invariant
                1 <= i <= n,
                n == col.len_spec(),
                view == gen_view(&col),
                view.len() == n,
                checked == (col.exact() && order_obeyed::<C::Output>()),
                col.exact() ==> last == view[i - 1],
                checked ==> forall|j: int| 0 < j < i ==> #[trigger] steps_up(view, j),
            decreases n - i,
        {
            proof {
                col.lemma_accepts(i);
            }
            let current = col.gen(i);
            proof {
                if col.exact() {
                    assert(current == view[i as int]);
                }
            }
            if !(last <= current) {
                proof {
                    if checked {
                        assert(!steps_up(view, i as int));
                        assert(!is_sorted_seq(view));
                        assert(first_unsorted(view, i - 1));
                    }
                }
                return Err(NotSorted { index: i - 1 });
            }
            proof {
                if checked {
                    assert(steps_up(view, i as int));
                }
            }
            last = current;
            i = i + 1;
        }
        Ok(Sorted(col))
    }
}

impl<C> Generator<usize> for Sorted<C> where C: Generator<usize> {
    type Output = C::Output;

    open spec fn accepts(&self, input: usize) -> bool {
        self.inner().accepts(input)
    }

    open spec fn gen_spec(&self, input: usize) -> C::Output {
        self.inner().gen_spec(input)
    }

    open spec fn exact(&self) -> bool {
        self.inner().exact()
    }

    fn gen(&self, input: usize) -> (r: C::Output) {
        self.0.gen(input)
    }
}

impl<C> DiscreteGenerator for Sorted<C> where C: DiscreteGenerator {
    open spec fn len_spec(&self) -> nat {
        self.inner().len_spec()
    }

    proof fn lemma_accepts(&self, i: usize) {
        self.inner().lemma_accepts(i);
    }

    fn len(&self) -> (r: usize) {
        self.0.len()
    }
}

impl<C> SortedGenerator for Sorted<C> where C: DiscreteGenerator {}

/// Equidistant knots: `len` knots starting at `offset`, each `step` after the previous one.
#[derive(Debug)]
pub struct Equidistant<R: Scalar> {
    len: usize,
    step: R,
    offset: R,
}

impl<R: Scalar> Equidistant<R> {
    #[verifier::type_invariant]
    spec fn computable(&self) -> bool {
        scalar_ops_defined::<R>()
    }

    /// The number of knots.
    pub closed spec fn length(&self) -> usize {
        self.len
    }

    /// The distance between neighbouring knots.
    pub closed spec fn step_spec(&self) -> R {
        self.step
    }

    /// The first knot.
    pub closed spec fn offset(&self) -> R {
        self.offset
    }

    /// Create `len` knots spread equidistantly over `[0, 1]`.
    pub fn normalized(len: usize) -> (r: Self)
        requires
            len >= 1,
            scalar_ops_defined::<R>(),
        ensures
            r.length() == len,
            scalar_ops_obeyed::<R>() ==> r.step_spec() == one::<R>().div_spec(
                scalar_of::<R>((len - 1) as nat),
            ) && r.offset() == zero::<R>(),
    {
        let count = scalar_from_usize::<R>(len - 1);
        Equidistant { len, step: R::from(1u8) / count, offset: R::from(0u8) }
    }

    /// Create `len` knots spread equidistantly over `[start, end]`.
    pub fn new(len: usize, start: R, end: R) -> (r: Self)
        requires
            len >= 1,
            scalar_ops_defined::<R>(),
        ensures
            r.length() == len,
            r.offset() == start,
            scalar_ops_obeyed::<R>() ==> r.step_spec() == end.sub_spec(start).div_spec(
                scalar_of::<R>((len - 1) as nat),
            ),
    {
        let count = scalar_from_usize::<R>(len - 1);
        Equidistant { len, step: (end - start) / count, offset: start }
    }

    /// Create `len` knots starting at `start` with a distance of `step`.
    pub fn step(len: usize, start: R, step: R) -> (r: Self)
        requires
            scalar_ops_defined::<R>(),
        ensures
            r.length() == len,
            r.offset() == start,
            r.step_spec() == step,
    {
        Equidistant { len, step, offset: start }
    }
}

impl<R: Scalar> Generator<usize> for Equidistant<R> {
    type Output = R;

    open spec fn accepts(&self, input: usize) -> bool {
        true
    }

    /// `offset + step * input`.
    open spec fn gen_spec(&self, input: usize) -> R {
        self.step_spec().mul_spec(scalar_of::<R>(input as nat)).add_spec(self.offset())
    }

    open spec fn exact(&self) -> bool {
        scalar_ops_obeyed::<R>()
    }

    fn gen(&self, input: usize) -> (r: R) {
        proof {
            use_type_invariant(self);
        }
        self.step * scalar_from_usize::<R>(input) + self.offset
    }
}

impl<R: Scalar> DiscreteGenerator for Equidistant<R> {
    open spec fn len_spec(&self) -> nat {
        self.length() as nat
    }

    proof fn lemma_accepts(&self, i: usize) {
    }

    fn len(&self) -> (r: usize) {
        self.len
    }
}

impl<R: Scalar> SortedGenerator for Equidistant<R> {}

/// `N` knots spread equidistantly over `[0, 1]`, for constant contexts.
#[derive(Debug)]
pub struct ConstEquidistant<R: Scalar, const N: usize>(PhantomData<R>);

impl<R: Scalar, const N: usize> ConstEquidistant<R, N> {
    #[verifier::type_invariant]
    spec fn computable(&self) -> bool {
        scalar_ops_defined::<R>()
    }

    /// Create a list of equidistant real numbers.
    pub fn new() -> (r: Self)
        requires
            scalar_ops_defined::<R>(),
    {
        ConstEquidistant(PhantomData)
    }
}

impl<R: Scalar, const N: usize> Generator<usize> for ConstEquidistant<R, N> {
    type Output = R;

    open spec fn accepts(&self, input: usize) -> bool {
        N >= 1
    }

    /// `input / (N - 1)`.
    open spec fn gen_spec(&self, input: usize) -> R {
        scalar_of::<R>(input as nat).div_spec(scalar_of::<R>((N - 1) as nat))
    }

    open spec fn exact(&self) -> bool {
        scalar_ops_obeyed::<R>()
    }

    fn gen(&self, input: usize) -> (r: R) {
        proof {
            use_type_invariant(self);
        }
        scalar_from_usize::<R>(input) / scalar_from_usize::<R>(N - 1)
    }
}

impl<R: Scalar, const N: usize> DiscreteGenerator for ConstEquidistant<R, N> {
    open spec fn len_spec(&self) -> nat {
        N as nat
    }

    proof fn lemma_accepts(&self, i: usize) {
    }

    fn len(&self) -> (r: usize) {
        N
    }
}

impl<R: Scalar, const N: usize> ConstDiscreteGenerator<N> for ConstEquidistant<R, N> {
    proof fn lemma_len_is_const(&self) {
    }
}

impl<R: Scalar, const N: usize> SortedGenerator for ConstEquidistant<R, N> {}

impl<'a, G: SortedGenerator> SortedGenerator for &'a G {}

/// Equidistant knots start at their offset and go up by their step from each knot to the next:
/// the knot `i + 1` is the step taken `i` times, plus one more step, plus the offset. Normalized
/// knots, with offset zero and step `1 / (len - 1)`, end at one. Both rest on the laws of
/// counting and of multiplying scalars: addition is associative and commutative with neutral
/// zero, multiplying distributes over addition, scaling by one keeps and by zero annihilates,
/// and for the last knot `len - 1` is not zero and dividing one by it and multiplying back
/// gives one.
#[verifier::spinoff_prover]
pub proof fn law_equidistant_knots<R: Scalar>(knots: Equidistant<R>, i: nat)
    requires
        i + 1 < knots.len_spec(),
        counting_laws::<R>(),
        forall|a: R, b: R, c: R|
            #[trigger] a.mul_spec(b.add_spec(c)) == a.mul_spec(b).add_spec(a.mul_spec(c)),
        forall|a: R| #[trigger] a.mul_spec(one::<R>()) == a,
        forall|a: R| #[trigger] a.mul_spec(zero::<R>()) == zero::<R>(),
    ensures
        knots.gen_spec(0) == knots.offset(),
        knots.gen_spec((i + 1) as usize) == knots.step_spec().mul_spec(scalar_of::<R>(i)).add_spec(
            knots.step_spec(),
        ).add_spec(knots.offset()),
        ({
            let last = scalar_of::<R>((knots.len_spec() - 1) as nat);
            knots.offset() == zero::<R>() && knots.step_spec() == one::<R>().div_spec(last)
                && one::<R>().div_spec(last).mul_spec(last) == one::<R>() ==> knots.gen_spec(
                (knots.len_spec() - 1) as usize,
            ) == one::<R>()
        }),
{
    let step = knots.step_spec();
    law_equidistant_steps(step, i);
    assert(zero::<R>().add_spec(knots.offset()) == knots.offset());
    let last = scalar_of::<R>((knots.len_spec() - 1) as nat);
    if knots.offset() == zero::<R>() && step == one::<R>().div_spec(last) && one::<R>().div_spec(
        last,
    ).mul_spec(last) == one::<R>() {
        assert(one::<R>().add_spec(zero::<R>()) == zero::<R>().add_spec(one::<R>()));
    }
}

/// The linear factor of `element` between `min` and `max` places it on the line through them:
/// `min + (max - min) * factor` is the element again, checked or not, wherever `max - min` is
/// not zero and the scalars follow the laws of real-number arithmetic. Where the difference of
/// the ends compares equal to zero, the checked factor is that difference.
pub proof fn law_linear_factor_places_element<R: Scalar>(min: R, max: R, element: R)
    requires
        interval_laws::<R>(),
    ensures
        max.sub_spec(min) != zero::<R>() && !max.sub_spec(min).eq_spec(&zero::<R>()) ==> min.add_spec(
            max.sub_spec(min).mul_spec(linear_factor_spec(min, max, element)),
        ) == element,
        max.sub_spec(min) != zero::<R>() ==> min.add_spec(
            max.sub_spec(min).mul_spec(linear_factor_unchecked_spec(min, max, element)),
        ) == element,
        max.sub_spec(min).eq_spec(&zero::<R>()) ==> linear_factor_spec(min, max, element)
            == max.sub_spec(min),
{
    let d = max.sub_spec(min);
    if d != zero::<R>() {
        assert(d.mul_spec(element.sub_spec(min).div_spec(d)) == element.sub_spec(min));
        assert(min.add_spec(element.sub_spec(min)) == element);
    }
}

} // verus!
