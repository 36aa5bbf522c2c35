//! Adaptors which change the input or output of generators.
use vstd::prelude::*;
use vstd::std_specs::cmp::PartialOrdIs;
use vstd::std_specs::cmp::PartialEqSpec;
use vstd::std_specs::cmp::PartialOrdSpec;
use vstd::std_specs::ops::{AddSpec, MulSpec, SubSpec, DivSpec, NegSpec};
use core::ops::Bound;
use core::ops::RangeBounds;
use core::ops::Neg;
use crate::scalar::{
    Scalar, scalar_ops_defined, scalar_exact, scalar_ops_obeyed, order_obeyed, one, zero,
    negation_defined, negation_obeyed, interval_laws,
};
use super::{Generator, DiscreteGenerator, ConstDiscreteGenerator, Curve, gen_view};

verus! {

/// `input` clamped into `[min, max]`.
pub open spec fn clamp_spec<T: PartialOrd>(input: T, min: T, max: T) -> T {
    if input.is_lt(&min) {
        min
    } else if input.is_gt(&max) {
        max
    } else {
        input
    }
}

/// Clamps `input` into `[min, max]`: `min` if `input < min`, `max` if `input > max`, and
/// `input` otherwise. Whatever the comparisons answer, the result is one of the three values.
fn clamp_into<T: PartialOrd>(input: T, min: T, max: T) -> (r: T)
    ensures
        r == input || r == min || r == max,
        order_obeyed::<T>() ==> r == clamp_spec(input, min, max),
{
    if input < min {
        min
    } else if input > max {
        max
    } else {
        input
    }
}

/// Wrapper for curves to clamp input to their domain.
#[derive(Debug, Copy, Clone, PartialEq)]
pub struct Clamp<G>(G);

impl<G> Clamp<G> {
    /// The wrapped curve.
    pub closed spec fn inner(&self) -> G {
        self.0
    }

    /// Create a new `Clamp` struct.
    pub fn new(signal: G) -> (r: Self)
        ensures
            r.inner() == signal,
    {
        Clamp(signal)
    }
}

impl<G, R> Generator<R> for Clamp<G> where G: Curve<R>, R: Scalar {
    type Output = G::Output;

    /// The domain can be computed and the wrapped curve accepts every input: the clamped input
    /// is the input or an end of the domain as `domain` returns it.
    open spec fn accepts(&self, input: R) -> bool {
        &&& self.inner().has_domain()
        &&& forall|x: R| #[trigger] self.inner().accepts(x)
    }

    open spec fn gen_spec(&self, input: R) -> G::Output {
        self.inner().gen_spec(
            clamp_spec(input, self.inner().domain_spec()[0], self.inner().domain_spec()[1]),
        )
    }

    open spec fn exact(&self) -> bool {
        self.inner().exact() && order_obeyed::<R>()
    }

    fn gen(&self, input: R) -> (r: G::Output) {
        let domain = self.0.domain();
        let clamped = clamp_into(input, domain[0], domain[1]);
        self.0.gen(clamped)
    }
}

impl<G, R> Curve<R> for Clamp<G> where G: Curve<R>, R: Scalar {
    open spec fn domain_spec(&self) -> [R; 2] {
        self.inner().domain_spec()
    }

    open spec fn has_domain(&self) -> bool {
        self.inner().has_domain()
    }

    fn domain(&self) -> (r: [R; 2]) {
        self.0.domain()
    }
}

/// Struct which transforms the input before sending it to the underlying curve: the input is
/// multiplied and then the addition is added.
#[derive(Debug, Copy, Clone, PartialEq)]
pub struct TransformInput<G, A, M> {
    addition: A,
    multiplication: M,
    inner: G,
}

impl<G, A, M> TransformInput<G, A, M> {
    /// The transformed curve.
    pub closed spec fn inner(&self) -> G {
        self.inner
    }

    /// What is added to the input.
    pub closed spec fn addition(&self) -> A {
        self.addition
    }

    /// What the input is multiplied with.
    pub closed spec fn multiplication(&self) -> M {
        self.multiplication
    }

    /// Create a generic `TransformInput`.
    pub fn new(signal: G, addition: A, multiplication: M) -> (r: Self)
        ensures
            r.inner() == signal,
            r.addition() == addition,
            r.multiplication() == multiplication,
    {
        TransformInput { inner: signal, addition, multiplication }
    }
}

/// The transformation maps inputs in `[start, end]` onto `[0, 1]`, such that the wrapped curve
/// with the domain `[0, 1]` gets the domain `[start, end]`: the input is scaled by
/// `1 / (end - start)` and then `-start / (end - start)` is added, as far as the scalar
/// operations obey their specifications.
pub open spec fn maps_unit_to_domain<G, R: Scalar>(t: TransformInput<G, R, R>, start: R, end: R) -> bool {
    let scale = one::<R>().div_spec(end.sub_spec(start));
    scalar_ops_obeyed::<R>() && negation_obeyed::<R>() ==> t.multiplication() == scale
        && t.addition() == start.neg_spec().mul_spec(scale)
}

impl<G, R> TransformInput<G, R, R> where G: Curve<R>, R: Scalar {
    /// Transform the input such that the wrapped curve changes its domain from `[0, 1]` to
    /// `[start, end]`.
    pub fn normalized_to_domain(signal: G, start: R, end: R) -> (r: Self)
        requires
            scalar_ops_defined::<R>(),
            negation_defined::<R>(),
        ensures
            r.inner() == signal,
            maps_unit_to_domain(r, start, end),
    {
        let unit = R::from(1u8);
        let scale = unit / (end - start);
        Self::new(signal, start.neg() * scale, scale)
    }
}

impl<G, R> Generator<R> for TransformInput<G, R, R> where G: Generator<R>, R: Scalar {
    type Output = G::Output;

    open spec fn accepts(&self, input: R) -> bool {
        &&& scalar_ops_defined::<R>()
        &&& forall|x: R| #[trigger] self.inner().accepts(x)
    }

    open spec fn gen_spec(&self, input: R) -> G::Output {
        self.inner().gen_spec(input.mul_spec(self.multiplication()).add_spec(self.addition()))
    }

    open spec fn exact(&self) -> bool {
        &&& self.inner().exact()
        &&& scalar_ops_obeyed::<R>()
    }

    fn gen(&self, input: R) -> (r: G::Output) {
        let x = input * self.multiplication + self.addition;
        proof {
            assert(self.inner().accepts(x));
        }
        self.inner.gen(x)
    }
}

impl<G, R> Curve<R> for TransformInput<G, R, R> where G: Curve<R>, R: Scalar {
    open spec fn domain_spec(&self) -> [R; 2] {
        let orig = self.inner().domain_spec();
        [
            orig[0].sub_spec(self.addition()).div_spec(self.multiplication()),
            orig[1].sub_spec(self.addition()).div_spec(self.multiplication()),
        ]
    }

    open spec fn has_domain(&self) -> bool {
        &&& self.inner().has_domain()
        &&& scalar_ops_defined::<R>()
    }

    fn domain(&self) -> (r: [R; 2]) {
        let orig = self.inner.domain();
        let start = (orig[0] - self.addition) / self.multiplication;
        let end = (orig[1] - self.addition) / self.multiplication;
        [start, end]
    }
}

/// Acts like a slice of a curve: the domain of the curve is mapped onto the given range.
#[derive(Debug, Copy, Clone, PartialEq)]
pub struct Slice<G, R>(TransformInput<G, R, R>);

/// The start of a range as given, `None` if it is unbounded.
///
/// Calls `RangeBounds::start_bound`; the range is generic and opaque to the verifier, so nothing
/// is stated about the value returned.
#[verifier::external_body]
fn range_start<R: Copy, B: RangeBounds<R>>(bound: &B) -> Option<R> {
    match bound.start_bound() {
        Bound::Included(x) => Some(*x),
        Bound::Excluded(x) => Some(*x),
        Bound::Unbounded => None,
    }
}

/// The end of a range as given, `None` if it is unbounded.
///
/// Calls `RangeBounds::end_bound`; the range is generic and opaque to the verifier, so nothing
/// is stated about the value returned.
#[verifier::external_body]
fn range_end<R: Copy, B: RangeBounds<R>>(bound: &B) -> Option<R> {
    match bound.end_bound() {
        Bound::Included(x) => Some(*x),
        Bound::Excluded(x) => Some(*x),
        Bound::Unbounded => None,
    }
}

impl<G, R> Slice<G, R> {
    /// The transformation of the input.
    pub closed spec fn transform(&self) -> TransformInput<G, R, R> {
        self.0
    }
}

/// The start of a slice: the given one, or the start of the domain `d` if none is given.
pub open spec fn slice_start<R>(d: [R; 2], start: Option<R>) -> R {
    match start {
        Some(x) => x,
        None => d[0],
    }
}

/// The end of a slice: the given one, or the end of the domain `d` if none is given.
pub open spec fn slice_end<R>(d: [R; 2], end: Option<R>) -> R {
    match end {
        Some(x) => x,
        None => d[1],
    }
}

/// The slice maps the domain `[d0, d1]` of its curve linearly onto `[s, e]`, the given ends:
/// the input is multiplied with `(e - s) / (d1 - d0)` and `s - d0 * (e - s) / (d1 - d0)` is
/// added, as far as the curve is exact and the scalar operations obey their specifications.
pub open spec fn maps_domain_onto<G, R>(r: Slice<G, R>, start: Option<R>, end: Option<R>) -> bool where
    G: Curve<R>,
    R: Scalar,
 {
    let signal = r.transform().inner();
    let d = signal.domain_spec();
    let s = slice_start(d, start);
    let e = slice_end(d, end);
    signal.exact() && scalar_ops_obeyed::<R>() ==> {
        &&& r.transform().addition() == s.sub_spec(d[0].mul_spec(r.transform().multiplication()))
        &&& r.transform().multiplication() == e.sub_spec(s).div_spec(d[1].sub_spec(d[0]))
    }
}

impl<G, R> Slice<G, R> where G: Curve<R>, R: Scalar {
    /// Create a slice of the given curve mapping its domain onto the range given by its ends;
    /// a missing end is the corresponding end of the domain.
    pub fn with_ends(signal: G, start: Option<R>, end: Option<R>) -> (r: Self)
        requires
            signal.has_domain(),
            scalar_ops_defined::<R>(),
        ensures
            r.transform().inner() == signal,
            maps_domain_onto(r, start, end),
    {
        let domain = signal.domain();
        let signal_start = domain[0];
        let signal_end = domain[1];
        let bound_start = match start {
            Some(x) => x,
            None => signal_start,
        };
        let bound_end = match end {
            Some(x) => x,
            None => signal_end,
        };
        let scale = (bound_end - bound_start) / (signal_end - signal_start);
        Slice(TransformInput::new(signal, bound_start - signal_start * scale, scale))
    }

    /// Create a new slice of the given curve.
    ///
    /// It does not matter if the bounds itself are included or excluded as we assume a
    /// continuous curve.
    pub fn new<B: RangeBounds<R>>(signal: G, bound: B) -> (r: Self)
        requires
            signal.has_domain(),
            scalar_ops_defined::<R>(),
        ensures
            r.transform().inner() == signal,
    {
        let start = range_start(&bound);
        let end = range_end(&bound);
        Self::with_ends(signal, start, end)
    }
}

impl<G, R> Generator<R> for Slice<G, R> where G: Generator<R>, R: Scalar {
    type Output = G::Output;

    open spec fn accepts(&self, input: R) -> bool {
        self.transform().accepts(input)
    }

    open spec fn gen_spec(&self, input: R) -> G::Output {
        self.transform().gen_spec(input)
    }

    open spec fn exact(&self) -> bool {
        self.transform().exact()
    }

    fn gen(&self, input: R) -> (r: G::Output) {
        self.0.gen(input)
    }
}

impl<G, R> Curve<R> for Slice<G, R> where G: Curve<R>, R: Scalar {
    open spec fn domain_spec(&self) -> [R; 2] {
        self.transform().inner().domain_spec()
    }

    open spec fn has_domain(&self) -> bool {
        self.transform().inner().has_domain()
    }

    fn domain(&self) -> (r: [R; 2]) {
        self.0.inner.domain()
    }
}


/// Composite of two generators: the output of the first is the input of the second.
#[derive(Debug, Copy, Clone, PartialEq)]
pub struct Composite<A, B>(A, B);

impl<A, B> Composite<A, B> {
    /// The first generator.
    pub closed spec fn first(&self) -> A {
        self.0
    }

    /// The second generator.
    pub closed spec fn second(&self) -> B {
        self.1
    }

    /// Creates a composite generator.
    pub fn new(first: A, second: B) -> (r: Self)
        ensures
            r.first() == first,
            r.second() == second,
    {
        Composite(first, second)
    }
}

impl<A, B, T> Generator<T> for Composite<A, B> where A: Generator<T>, B: Generator<A::Output> {
    type Output = B::Output;

    open spec fn accepts(&self, input: T) -> bool {
        &&& self.first().accepts(input)
        &&& forall|y: A::Output| #[trigger] self.second().accepts(y)
    }

    open spec fn gen_spec(&self, input: T) -> B::Output {
        self.second().gen_spec(self.first().gen_spec(input))
    }

    open spec fn exact(&self) -> bool {
        &&& self.first().exact()
        &&& self.second().exact()
    }

    fn gen(&self, input: T) -> (r: B::Output) {
        let intermediate = self.0.gen(input);
        proof {
            assert(self.second().accepts(intermediate));
        }
        self.1.gen(intermediate)
    }
}

impl<A, B, R> Curve<R> for Composite<A, B> where A: Curve<R>, B: Generator<A::Output>, R: Scalar {
    open spec fn domain_spec(&self) -> [R; 2] {
        self.first().domain_spec()
    }

    open spec fn has_domain(&self) -> bool {
        self.first().has_domain()
    }

    fn domain(&self) -> (r: [R; 2]) {
        self.0.domain()
    }
}

/// Generator adaptor which stacks two generators: for outputs `S` and `T` it outputs `(S, T)`.
#[derive(Debug, Copy, Clone, PartialEq)]
pub struct Stack<G, H>(G, H);

impl<G, H> Stack<G, H> {
    /// The first generator.
    pub closed spec fn first(&self) -> G {
        self.0
    }

    /// The second generator.
    pub closed spec fn second(&self) -> H {
        self.1
    }

    /// Creates a stacked generator, working similar like the `zip` method of iterators.
    pub fn new(first: G, second: H) -> (r: Self)
        ensures
            r.first() == first,
            r.second() == second,
    {
        Stack(first, second)
    }
}

impl<G, H, I> Generator<I> for Stack<G, H> where G: Generator<I>, H: Generator<I>, I: Copy {
    type Output = (G::Output, H::Output);

    open spec fn accepts(&self, input: I) -> bool {
        &&& self.first().accepts(input)
        &&& self.second().accepts(input)
    }

    open spec fn gen_spec(&self, input: I) -> (G::Output, H::Output) {
        (self.first().gen_spec(input), self.second().gen_spec(input))
    }

    open spec fn exact(&self) -> bool {
        &&& self.first().exact()
        &&& self.second().exact()
    }

    fn gen(&self, input: I) -> (r: (G::Output, H::Output)) {
        (self.0.gen(input), self.1.gen(input))
    }
}

impl<G, H> DiscreteGenerator for Stack<G, H> where G: DiscreteGenerator, H: DiscreteGenerator {
    open spec fn len_spec(&self) -> nat {
        if self.first().len_spec() < self.second().len_spec() {
            self.first().len_spec()
        } else {
            self.second().len_spec()
        }
    }

    proof fn lemma_accepts(&self, i: usize) {
        self.first().lemma_accepts(i);
        self.second().lemma_accepts(i);
        assert(self.first().accepts(i));
        assert(self.second().accepts(i));
        assert(<Self as Generator<usize>>::accepts(self, i));
    }

    fn len(&self) -> (r: usize) {
        let a = self.0.len();
        let b = self.1.len();
        if a < b {
            a
        } else {
            b
        }
    }
}

impl<G, H, const N: usize> ConstDiscreteGenerator<N> for Stack<G, H> where
    G: ConstDiscreteGenerator<N>,
    H: ConstDiscreteGenerator<N>,
 {
    proof fn lemma_len_is_const(&self) {
        self.first().lemma_len_is_const();
        self.second().lemma_len_is_const();
    }
}

/// The larger of two scalars; a value that is not equal to itself (a NaN) gives way to the
/// other one, and of two that are not comparable otherwise the first is taken.
pub open spec fn max_spec<R: PartialOrd>(a: R, b: R) -> R {
    if b.is_gt(&a) || !a.eq_spec(&a) {
        b
    } else {
        a
    }
}

/// The smaller of two scalars; a value that is not equal to itself (a NaN) gives way to the
/// other one, and of two that are not comparable otherwise the first is taken.
pub open spec fn min_spec<R: PartialOrd>(a: R, b: R) -> R {
    if b.is_lt(&a) || !a.eq_spec(&a) {
        b
    } else {
        a
    }
}

impl<G, H, R> Curve<R> for Stack<G, H> where G: Curve<R>, H: Curve<R>, R: Scalar {
    open spec fn domain_spec(&self) -> [R; 2] {
        let first = self.first().domain_spec();
        let second = self.second().domain_spec();
        [max_spec(first[0], second[0]), min_spec(first[1], second[1])]
    }

    open spec fn has_domain(&self) -> bool {
        &&& self.first().has_domain()
        &&& self.second().has_domain()
        &&& order_obeyed::<R>()
        &&& R::obeys_eq_spec()
    }

    /// The intersection of both domains; an end that is not equal to itself (a NaN) is
    /// replaced by the other curve's end.
    fn domain(&self) -> (r: [R; 2]) {
        let first = self.0.domain();
        let second = self.1.domain();
        let start = if second[0] > first[0] || first[0] != first[0] {
            second[0]
        } else {
            first[0]
        };
        let end = if second[1] < first[1] || first[1] != first[1] {
            second[1]
        } else {
            first[1]
        };
        [start, end]
    }
}

/// Discrete generator adaptor which repeats the underlying elements.
///
/// The elements are repeated until `usize::MAX` is reached; repeating an empty generator gives
/// an empty generator.
#[derive(Debug, Copy, Clone, PartialEq)]
pub struct Repeat<G>(G);

impl<G> Repeat<G> {
    /// The repeated generator.
    pub closed spec fn inner(&self) -> G {
        self.0
    }

    /// Repeat a given discrete generator pseudo-endlessly.
    pub fn new(signal: G) -> (r: Self)
        ensures
            r.inner() == signal,
    {
        Repeat(signal)
    }
}

impl<G: DiscreteGenerator> Generator<usize> for Repeat<G> {
    type Output = G::Output;

    open spec fn accepts(&self, input: usize) -> bool {
        self.inner().len_spec() > 0
    }

    open spec fn gen_spec(&self, input: usize) -> G::Output {
        self.inner().gen_spec((input as nat % self.inner().len_spec()) as usize)
    }

    open spec fn exact(&self) -> bool {
        self.inner().exact()
    }

    fn gen(&self, input: usize) -> (r: G::Output) {
        let len = self.0.len();
        let index = input % len;
        proof {
            self.inner().lemma_accepts(index);
        }
        self.0.gen(index)
    }
}

impl<G: DiscreteGenerator> DiscreteGenerator for Repeat<G> {
    open spec fn len_spec(&self) -> nat {
        if self.inner().len_spec() == 0 {
            0
        } else {
            usize::MAX as nat
        }
    }

    proof fn lemma_accepts(&self, i: usize) {
    }

    fn len(&self) -> (r: usize) {
        if self.0.len() == 0 {
            0
        } else {
            usize::MAX
        }
    }
}

/// Discrete generator adaptor which appends the first `n` elements again at the end.
///
/// Wrapping an empty generator gives an empty generator.
#[derive(Debug)]
pub struct Wrap<G: DiscreteGenerator> {
    inner: G,
    n: usize,
}

impl<G: DiscreteGenerator> Wrap<G> {
    #[verifier::type_invariant]
    spec fn fits(&self) -> bool {
        self.inner.len_spec() + self.n <= usize::MAX
    }

    /// The wrapped generator.
    pub closed spec fn inner(&self) -> G {
        self.inner
    }

    /// The number of elements appended.
    pub closed spec fn n(&self) -> usize {
        self.n
    }

    /// Wrap the first `n` elements to the end.
    pub fn new(signal: G, n: usize) -> (r: Self)
        requires
            signal.len_spec() + n <= usize::MAX,
        ensures
            r.inner() == signal,
            r.n() == n,
    {
        Wrap { inner: signal, n }
    }
}

impl<G: DiscreteGenerator> Generator<usize> for Wrap<G> {
    type Output = G::Output;

    open spec fn accepts(&self, input: usize) -> bool {
        self.inner().len_spec() > 0
    }

    open spec fn gen_spec(&self, input: usize) -> G::Output {
        self.inner().gen_spec((input as nat % self.inner().len_spec()) as usize)
    }

    open spec fn exact(&self) -> bool {
        self.inner().exact()
    }

    fn gen(&self, input: usize) -> (r: G::Output) {
        let len = self.inner.len();
        let index = input % len;
        proof {
            self.inner().lemma_accepts(index);
        }
        self.inner.gen(index)
    }
}

impl<G: DiscreteGenerator> DiscreteGenerator for Wrap<G> {
    open spec fn len_spec(&self) -> nat {
        if self.inner().len_spec() == 0 {
            0
        } else {
            self.inner().len_spec() + self.n() as nat
        }
    }

    proof fn lemma_accepts(&self, i: usize) {
    }

    fn len(&self) -> (r: usize) {
        proof {
            use_type_invariant(self);
        }
        let len = self.inner.len();
        if len == 0 {
            0
        } else {
            len + self.n
        }
    }
}

/// The elements of a wrap are those of the wrapped generator followed by its first `n` elements
/// again (taken round the generator once more where `n` exceeds its length).
pub proof fn law_wrap_elements<G: DiscreteGenerator>(wrap: Wrap<G>)
    requires
        wrap.inner().len_spec() > 0,
        wrap.inner().len_spec() + wrap.n() <= usize::MAX,
    ensures
        ({
            let inner = gen_view(&wrap.inner());
            gen_view(&wrap) == inner + Seq::new(
                wrap.n() as nat,
                |j: int| inner[j % (inner.len() as int)],
            )
        }),
        wrap.n() <= wrap.inner().len_spec() ==> gen_view(&wrap) == gen_view(&wrap.inner()) + gen_view(
            &wrap.inner(),
        ).take(wrap.n() as int),
{
    let inner = gen_view(&wrap.inner());
    let len = inner.len() as int;
    let expected = inner + Seq::new(wrap.n() as nat, |j: int| inner[j % len]);
    let outer = gen_view(&wrap);
    assert(outer.len() == expected.len());
    assert forall|i: int| 0 <= i < outer.len() implies outer[i] == expected[i] by {
        assert(outer[i] == wrap.inner().gen_spec((i as nat % wrap.inner().len_spec()) as usize));
        if i < len {
            assert(i % len == i) by (nonlinear_arith)
                requires
                    0 <= i < len,
            ;
            assert(expected[i] == inner[i]);
        } else {
            let j = i - len;
            assert(i % len == j % len) by (nonlinear_arith)
                requires
                    0 <= j,
                    i == j + len,
                    len > 0,
            {
                vstd::arithmetic::div_mod::lemma_mod_add_multiples_vanish(j, len);
            }
            assert(0 <= j % len < len) by {
                vstd::arithmetic::div_mod::lemma_mod_bound(j, len);
            }
            assert(expected[i] == inner[j % len]);
        }
    }
    assert(outer =~= expected);
    if wrap.n() <= wrap.inner().len_spec() {
        assert forall|j: int| 0 <= j < wrap.n() implies #[trigger] (j % len) == j by {
            vstd::arithmetic::div_mod::lemma_small_mod(j as nat, len as nat);
        }
        assert(expected =~= inner + inner.take(wrap.n() as int));
    }
}

/// A curve with the domain `[0, 1]` transformed onto `[start, end]` takes at `start` the value
/// it had at zero and at `end` the value it had at one, where `start` and `end` differ and the
/// scalars follow the laws of real-number arithmetic.
pub proof fn law_normalized_to_domain_ends<G, R>(t: TransformInput<G, R, R>, start: R, end: R) where
    G: Curve<R>,
    R: Scalar,

    requires
        maps_unit_to_domain(t, start, end),
        scalar_ops_obeyed::<R>(),
        negation_obeyed::<R>(),
        interval_laws::<R>(),
        end.sub_spec(start) != zero::<R>(),
    ensures
        t.gen_spec(start) == t.inner().gen_spec(zero::<R>()),
        t.gen_spec(end) == t.inner().gen_spec(one::<R>()),
{
    let m = t.multiplication();
    let minus = start.neg_spec();
    assert(start.mul_spec(m).add_spec(minus.mul_spec(m)) == start.add_spec(minus).mul_spec(m));
    assert(start.add_spec(minus) == zero::<R>());
    assert(zero::<R>().mul_spec(m) == zero::<R>());
    assert(end.mul_spec(m).add_spec(minus.mul_spec(m)) == end.add_spec(minus).mul_spec(m));
    assert(end.add_spec(minus) == end.sub_spec(start));
    assert(end.sub_spec(start).mul_spec(one::<R>().div_spec(end.sub_spec(start))) == one::<R>());
}

/// A slice of a curve with the domain `[d0, d1]` onto the ends `s` and `e` takes at `d0` the
/// value the curve had at `s` and at `d1` the value it had at `e`, where the domain is not a
/// single point and the scalars follow the laws of real-number arithmetic.
pub proof fn law_slice_ends<G, R>(r: Slice<G, R>, start: Option<R>, end: Option<R>) where
    G: Curve<R>,
    R: Scalar,

    requires
        maps_domain_onto(r, start, end),
        r.transform().inner().exact(),
        scalar_ops_obeyed::<R>(),
        interval_laws::<R>(),
        ({
            let d = r.transform().inner().domain_spec();
            d[1].sub_spec(d[0]) != zero::<R>()
        }),
    ensures
        ({
            let signal = r.transform().inner();
            let d = signal.domain_spec();
            &&& r.domain_spec() == d
            &&& r.gen_spec(d[0]) == signal.gen_spec(slice_start(d, start))
            &&& r.gen_spec(d[1]) == signal.gen_spec(slice_end(d, end))
        }),
{
    let signal = r.transform().inner();
    let d = signal.domain_spec();
    let s = slice_start(d, start);
    let e = slice_end(d, end);
    let m = r.transform().multiplication();
    let a = r.transform().addition();
    assert(a == s.sub_spec(d[0].mul_spec(m)));
    assert(d[0].mul_spec(m).add_spec(s.sub_spec(d[0].mul_spec(m))) == s);
    assert(d[1].mul_spec(m).add_spec(s.sub_spec(d[0].mul_spec(m))) == s.add_spec(
        d[1].mul_spec(m).sub_spec(d[0].mul_spec(m)),
    ));
    assert(d[1].mul_spec(m).sub_spec(d[0].mul_spec(m)) == d[1].sub_spec(d[0]).mul_spec(m));
    assert(d[1].sub_spec(d[0]).mul_spec(e.sub_spec(s).div_spec(d[1].sub_spec(d[0])))
        == e.sub_spec(s));
    assert(s.add_spec(e.sub_spec(s)) == e);
}

/// Repeating a non-empty generator starts its elements over again: the first `len` elements
/// are those of the generator, and every element equals the one `len` places before it.
pub proof fn law_repeat_is_periodic<G: DiscreteGenerator>(repeat: Repeat<G>)
    requires
        repeat.inner().len_spec() > 0,
    ensures
        forall|i: usize|
            i < repeat.inner().len_spec() ==> #[trigger] repeat.gen_spec(i)
                == repeat.inner().gen_spec(i),
        forall|i: usize|
            i + repeat.inner().len_spec() <= usize::MAX ==> #[trigger] repeat.gen_spec(
                (i + repeat.inner().len_spec()) as usize,
            ) == repeat.gen_spec(i),
{
    let len = repeat.inner().len_spec() as int;
    assert forall|i: usize| i < len implies #[trigger] repeat.gen_spec(i)
        == repeat.inner().gen_spec(i) by {
        vstd::arithmetic::div_mod::lemma_small_mod(i as nat, len as nat);
    }
    assert forall|i: usize| i + len <= usize::MAX implies #[trigger] repeat.gen_spec(
        (i + len) as usize,
    ) == repeat.gen_spec(i) by {
        vstd::arithmetic::div_mod::lemma_mod_add_multiples_vanish(i as int, len);
    }
}

/// The comparison of `T` is a total order: any two values compare, `a < b` exactly when
/// `b > a`, `a <= b` exactly when `b >= a`, every value is at most itself, and `a < b <= c`
/// gives `a < c`.
pub open spec fn total_order<T: PartialOrd>() -> bool {
    &&& forall|a: T, b: T| #[trigger] a.partial_cmp_spec(&b) is Some
    &&& forall|a: T, b: T| #![trigger a.partial_cmp_spec(&b)] a.is_lt(&b) <==> b.is_gt(&a)
    &&& forall|a: T, b: T| #![trigger a.partial_cmp_spec(&b)] a.is_le(&b) <==> b.is_ge(&a)
    &&& forall|a: T| #![trigger a.partial_cmp_spec(&a)] a.is_le(&a)
    &&& forall|a: T, b: T, c: T|
        #![trigger a.partial_cmp_spec(&b), b.partial_cmp_spec(&c)]
        a.is_lt(&b) && b.is_le(&c) ==> a.is_lt(&c)
}

/// Clamping lands in the interval and leaves inputs inside it alone: for a total order and
/// `min <= max`, the clamped input lies in `[min, max]`, it is the input itself whenever the
/// input lies in `[min, max]`, `min` for inputs below and `max` for inputs above.
pub proof fn law_clamp_into_interval<T: PartialOrd>(input: T, min: T, max: T)
    requires
        total_order::<T>(),
        min.is_le(&max),
    ensures
        min.is_le(&clamp_spec(input, min, max)),
        clamp_spec(input, min, max).is_le(&max),
        min.is_le(&input) && input.is_le(&max) ==> clamp_spec(input, min, max) == input,
        input.is_lt(&min) ==> clamp_spec(input, min, max) == min,
        max.is_lt(&input) ==> clamp_spec(input, min, max) == max,
{
    assert(min.is_le(&min));
    assert(max.is_le(&max));
    assert(input.partial_cmp_spec(&min) is Some);
    assert(input.partial_cmp_spec(&max) is Some);
    if !input.is_lt(&min) && !input.is_gt(&max) {
        assert(input.is_ge(&min));
        assert(min.is_le(&input));
        assert(input.is_le(&max));
    }
    if min.is_le(&input) {
        assert(input.is_ge(&min));
    }
    if input.is_le(&max) {
        assert(max.is_ge(&input));
    }
    if max.is_lt(&input) {
        assert(input.is_gt(&max));
        assert(!input.is_lt(&min)) by {
            if input.is_lt(&min) {
                assert(input.partial_cmp_spec(&min) is Some);
                assert(min.partial_cmp_spec(&max) is Some);
                assert(input.is_lt(&max));
            }
        }
    }
}

/// The ends of the intersection of two domains: for a total order on values equal to
/// themselves, the larger of two values is at least both and is one of them, and the smaller is
/// at most both and is one of them.
pub proof fn law_max_min_bounds<R: PartialOrd>(a: R, b: R)
    requires
        total_order::<R>(),
        a.eq_spec(&a),
        b.eq_spec(&b),
    ensures
        a.is_le(&max_spec(a, b)) && b.is_le(&max_spec(a, b)),
        max_spec(a, b) == a || max_spec(a, b) == b,
        min_spec(a, b).is_le(&a) && min_spec(a, b).is_le(&b),
        min_spec(a, b) == a || min_spec(a, b) == b,
{
    assert(a.is_le(&a));
    assert(b.is_le(&b));
    assert(a.partial_cmp_spec(&b) is Some);
    assert(b.partial_cmp_spec(&a) is Some);
    if b.is_gt(&a) {
        assert(a.is_lt(&b));
    } else {
        assert(b.is_le(&a));
    }
    if b.is_lt(&a) {
        assert(a.is_gt(&b));
        assert(b.is_le(&a));
    } else {
        assert(a.is_le(&b));
    }
}

} // verus!
