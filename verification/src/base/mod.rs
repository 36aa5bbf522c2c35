//! The basic traits of the library: generators, discrete generators, sorted generators and curves,
//! together with their implementations for arrays, vectors and slices.
use vstd::prelude::*;
use vstd::std_specs::cmp::PartialOrdIs;

pub mod adaptors;
pub mod iter;
pub mod list;
pub mod space;

pub use iter::{IntoIter, Stepper, Take};
pub use list::{NotSorted, Sorted, SortedGenerator, ConstEquidistant, Equidistant};
pub use adaptors::{Clamp, TransformInput, Slice, Composite, Stack, Repeat, Wrap};
pub use space::{Space, ConstSpace, DynSpace, Workspace};

verus! {

/// Trait which symbolises the generation or copying of an element.
///
/// `gen_spec` is what the generator outputs for an input it `accepts`. Generators whose output
/// is computed by arithmetic of generic types are `exact` only if those types obey the
/// specifications of their operations; for collections they are always exact.
pub trait Generator<Input> {
    /// The element outputted.
    type Output;

    /// The inputs for which the generator produces an element.
    spec fn accepts(&self, input: Input) -> bool;

    /// The element generated for `input`.
    spec fn gen_spec(&self, input: Input) -> Self::Output;

    /// Whether `gen` is known to return `gen_spec`.
    spec fn exact(&self) -> bool;

    /// Generate the element for the given input.
    fn gen(&self, input: Input) -> (r: Self::Output)
        requires
            self.accepts(input),
        ensures
            self.exact() ==> r == self.gen_spec(input),
    ;

    /// Stack two generators together: for outputs `S` and `T` the stacked generator outputs
    /// `(S, T)`.
    fn stack<G>(self, gen: G) -> (r: adaptors::Stack<Self, G>)
        where
            Self: Sized,
        ensures
            r.first() == self,
            r.second() == gen,
    {
        adaptors::Stack::new(self, gen)
    }

    /// Borrow the generator, such that adaptors can be used without consuming it.
    fn by_ref(&self) -> (r: &Self)
        where
            Self: Sized,
        ensures
            *r == *self,
    {
        self
    }

    /// Pipe this generator into the given one: the output of this generator is the input of
    /// the other.
    fn composite<G>(self, gen: G) -> (r: adaptors::Composite<Self, G>)
        where
            Self: Sized,
        ensures
            r.first() == self,
            r.second() == gen,
    {
        adaptors::Composite::new(self, gen)
    }
}

/// Trait for all interpolations, generators which are smooth inbetween specific points.
pub trait Interpolation<Input>: Generator<Input> {}

/// Generators which create valid elements for all inputs lower than their length.
pub trait DiscreteGenerator: Generator<usize> {
    /// The number of elements the generator creates.
    spec fn len_spec(&self) -> nat;

    /// Every index below the length is accepted.
    proof fn lemma_accepts(&self, i: usize)
        requires
            i < self.len_spec(),
        ensures
            self.accepts(i),
    ;

    /// Returns the minimum amount of elements the generator can create.
    fn len(&self) -> (r: usize)
        ensures
            r == self.len_spec(),
    ;

    /// Returns true if the generator does not generate any elements.
    fn is_empty(&self) -> (r: bool)
        ensures
            r == (self.len_spec() == 0),
    {
        self.len() == 0
    }

    /// Returns the first element of the generator, or `None` if it is empty.
    fn first(&self) -> (r: Option<Self::Output>)
        ensures
            self.len_spec() == 0 <==> r is None,
            self.exact() && self.len_spec() > 0 ==> r == Some(self.gen_spec(0)),
    {
        if self.is_empty() {
            return None;
        }
        proof {
            self.lemma_accepts(0);
        }
        Some(self.gen(0))
    }

    /// Returns the last element of the generator, or `None` if it is empty.
    fn last(&self) -> (r: Option<Self::Output>)
        ensures
            self.len_spec() == 0 <==> r is None,
            self.exact() && self.len_spec() > 0 ==> r == Some(
                self.gen_spec((self.len_spec() - 1) as usize),
            ),
    {
        if self.is_empty() {
            return None;
        }
        let n = self.len();
        proof {
            self.lemma_accepts((n - 1) as usize);
        }
        Some(self.gen(n - 1))
    }

    /// Repeat the elements of the generator pseudo-endlessly.
    fn repeat(self) -> (r: adaptors::Repeat<Self>)
        where
            Self: Sized,
        ensures
            r.inner() == self,
    {
        adaptors::Repeat::new(self)
    }
}

/// `DiscreteGenerator` whose length is known at compile time and given by `N`.
pub trait ConstDiscreteGenerator<const N: usize>: DiscreteGenerator {
    /// The length is `N`.
    proof fn lemma_len_is_const(&self)
        ensures
            self.len_spec() == N,
    ;

    /// Collect all elements generated into an array.
    fn to_array(&self) -> (r: [Self::Output; N])
        where
            Self::Output: Copy + Default,
        ensures
            self.exact() ==> forall|i: int| 0 <= i < N ==> r@[i] == #[trigger] self.gen_spec(i as usize),
    {
        let mut arr: [Self::Output; N] = [Self::Output::default(); N];
        proof {
            self.lemma_len_is_const();
        }
        let mut i: usize = 0;
        while i < N
            invariant
                i <= N,
                self.len_spec() == N,
                self.exact() ==> forall|j: int| 0 <= j < i ==> arr@[j] == #[trigger] self.gen_spec(j as usize),
            decreases N - i,
        {
            proof {
                self.lemma_accepts(i);
            }
            arr[i] = self.gen(i);
            i = i + 1;
        }
        arr
    }
}

/// Curves are interpolations which take a real number as input and have a domain.
pub trait Curve<R>: Generator<R> {
    /// The domain of the curve.
    spec fn domain_spec(&self) -> [R; 2];

    /// The curve is set up such that its domain can be computed.
    spec fn has_domain(&self) -> bool;

    /// The domain in which the curve uses interpolation.
    fn domain(&self) -> (r: [R; 2])
        requires
            self.has_domain(),
        ensures
            self.exact() ==> r == self.domain_spec(),
    ;

    /// Clamp the input of the curve to its domain.
    fn clamp(self) -> (r: adaptors::Clamp<Self>)
        where
            Self: Sized,
        ensures
            r.inner() == self,
    {
        adaptors::Clamp::new(self)
    }
}

/// The elements generated by a discrete generator, as a sequence.
pub open spec fn gen_view<G: DiscreteGenerator + ?Sized>(g: &G) -> Seq<G::Output> {
    Seq::new(g.len_spec(), |i: int| g.gen_spec(i as usize))
}

impl<T: Copy, const N: usize> Generator<usize> for [T; N] {
    type Output = T;

    open spec fn accepts(&self, input: usize) -> bool {
        input < N
    }

    open spec fn gen_spec(&self, input: usize) -> T {
        self@[input as int]
    }

    open spec fn exact(&self) -> bool {
        true
    }

    fn gen(&self, input: usize) -> (r: T) {
        self[input]
    }
}

impl<T: Copy, const N: usize> DiscreteGenerator for [T; N] {
    open spec fn len_spec(&self) -> nat {
        N as nat
    }

    proof fn lemma_accepts(&self, i: usize) {
    }

    fn len(&self) -> (r: usize) {
        N
    }
}

impl<T: Copy, const N: usize> ConstDiscreteGenerator<N> for [T; N] {
    proof fn lemma_len_is_const(&self) {
    }
}

impl<T: Copy> Generator<usize> for Vec<T> {
    type Output = T;

    open spec fn accepts(&self, input: usize) -> bool {
        input < self@.len()
    }

    open spec fn gen_spec(&self, input: usize) -> T {
        self@[input as int]
    }

    open spec fn exact(&self) -> bool {
        true
    }

    fn gen(&self, input: usize) -> (r: T) {
        self[input]
    }
}

impl<T: Copy> DiscreteGenerator for Vec<T> {
    open spec fn len_spec(&self) -> nat {
        self@.len()
    }

    proof fn lemma_accepts(&self, i: usize) {
    }

    fn len(&self) -> (r: usize) {
        self.len()
    }
}

impl<'a, T: Copy> Generator<usize> for &'a [T] {
    type Output = T;

    open spec fn accepts(&self, input: usize) -> bool {
        input < self@.len()
    }

    open spec fn gen_spec(&self, input: usize) -> T {
        self@[input as int]
    }

    open spec fn exact(&self) -> bool {
        true
    }

    fn gen(&self, input: usize) -> (r: T) {
        self[input]
    }
}

impl<'a, T: Copy> DiscreteGenerator for &'a [T] {
    open spec fn len_spec(&self) -> nat {
        self@.len()
    }

    proof fn lemma_accepts(&self, i: usize) {
    }

    fn len(&self) -> (r: usize) {
        <[T]>::len(self)
    }
}

impl<'a, G: Generator<I>, I> Generator<I> for &'a G {
    type Output = G::Output;

    open spec fn accepts(&self, input: I) -> bool {
        (**self).accepts(input)
    }

    open spec fn gen_spec(&self, input: I) -> G::Output {
        (**self).gen_spec(input)
    }

    open spec fn exact(&self) -> bool {
        (**self).exact()
    }

    fn gen(&self, input: I) -> (r: G::Output) {
        (**self).gen(input)
    }
}

impl<'a, G: DiscreteGenerator> DiscreteGenerator for &'a G {
    open spec fn len_spec(&self) -> nat {
        (**self).len_spec()
    }

    proof fn lemma_accepts(&self, i: usize) {
        (**self).lemma_accepts(i);
    }

    fn len(&self) -> (r: usize) {
        (**self).len()
    }
}

impl<'a, G: ConstDiscreteGenerator<N>, const N: usize> ConstDiscreteGenerator<N> for &'a G {
    proof fn lemma_len_is_const(&self) {
        (**self).lemma_len_is_const();
    }
}

impl<'a, C: Curve<R>, R> Curve<R> for &'a C {
    open spec fn domain_spec(&self) -> [R; 2] {
        (**self).domain_spec()
    }

    open spec fn has_domain(&self) -> bool {
        (**self).has_domain()
    }

    fn domain(&self) -> (r: [R; 2]) {
        (**self).domain()
    }
}

} // verus!
