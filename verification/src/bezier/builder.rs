//! Builder for bezier curves.
//!
//! The director takes the information step by step, each fallible step returning a `Result`;
//! the builder carries the first error through all later steps and returns it on `build`.
use vstd::prelude::*;
use core::marker::PhantomData;
use core::ops::{Add, Mul};
use super::Bezier;
use super::error::{BezierError, Empty, TooSmallWorkspace};
use crate::base::{
    DiscreteGenerator, ConstDiscreteGenerator, Space, ConstSpace, DynSpace, TransformInput, Curve,
};
use crate::base::adaptors::maps_unit_to_domain;
use crate::builder::{InputDomain, NormalizedInput, Unknown, WithWeight, WithoutWeight};
use crate::weights::{Homogeneous, IntoWeight, Weighted, Weights};
use crate::scalar::{Scalar, scalar_ops_defined, negation_defined};

verus! {

/// Builder for bezier curves whose steps may fail.
///
/// Before building, one has to give the elements, the domain (normalized or custom) and the
/// workspace (dynamic, constant or a given one).
#[derive(Debug)]
pub struct BezierDirector<I, E, S, W> {
    input: I,
    elements: E,
    space: S,
    _phantom: PhantomData<W>,
}

/// Builder for bezier curves, which reports an error only when building.
#[derive(Debug)]
pub struct BezierBuilder<I, E, S, W> {
    inner: Result<BezierDirector<I, E, S, W>, BezierError>,
}

impl<I, E, S, W> BezierDirector<I, E, S, W> {
    /// The input domain given.
    pub closed spec fn input_spec(&self) -> I {
        self.input
    }

    /// The elements given.
    pub closed spec fn elements_spec(&self) -> E {
        self.elements
    }

    /// The workspace given.
    pub closed spec fn space_spec(&self) -> S {
        self.space
    }
}

impl<I, E, S, W> BezierBuilder<I, E, S, W> {
    /// The director the builder holds, or the first error that occured.
    pub closed spec fn state(&self) -> Result<BezierDirector<I, E, S, W>, BezierError> {
        self.inner
    }
}

impl Default for BezierDirector<Unknown, Unknown, Unknown, Unknown> {
    fn default() -> (r: Self)
        ensures
            r.elements_spec() == Unknown,
    {
        BezierDirector::new()
    }
}

impl Default for BezierBuilder<Unknown, Unknown, Unknown, Unknown> {
    fn default() -> (r: Self)
        ensures
            r.state() is Ok,
    {
        BezierBuilder::new()
    }
}

impl BezierDirector<Unknown, Unknown, Unknown, Unknown> {
    /// Create a new bezier curve director.
    pub fn new() -> (r: Self)
        ensures
            r.input_spec() == Unknown,
            r.elements_spec() == Unknown,
            r.space_spec() == Unknown,
    {
        BezierDirector { input: Unknown, elements: Unknown, space: Unknown, _phantom: PhantomData }
    }

    /// Set the elements for this interpolation.
    ///
    /// # Errors
    ///
    /// [`Empty`] if no elements were given.
    pub fn elements<E>(self, elements: E) -> (r: Result<
        BezierDirector<Unknown, E, Unknown, WithoutWeight>,
        Empty,
    >) where E: DiscreteGenerator
        ensures
            elements.len_spec() == 0 <==> r is Err,
            r matches Ok(d) ==> d.elements_spec() == elements,
    {
        if elements.len() < 1 {
            return Err(Empty::new());
        }
        Ok(BezierDirector {
            input: self.input,
            space: self.space,
            elements,
            _phantom: PhantomData,
        })
    }
}

impl BezierDirector<Unknown, Unknown, Unknown, Unknown> {
    /// Set the elements and their weights for this interpolation.
    ///
    /// # Errors
    ///
    /// [`Empty`] if no elements were given.
    pub fn elements_with_weights<G>(self, gen: G) -> (r: Result<
        BezierDirector<Unknown, Weights<G>, Unknown, WithWeight>,
        Empty,
    >) where G: DiscreteGenerator, G::Output: IntoWeight
        requires
            forall|o: G::Output| #[trigger] o.into_weight_req(),
        ensures
            gen.len_spec() == 0 <==> r is Err,
            r matches Ok(d) ==> d.elements_spec().inner() == gen,
    {
        if gen.len() < 1 {
            return Err(Empty::new());
        }
        Ok(BezierDirector {
            input: self.input,
            space: self.space,
            elements: Weights::new(gen),
            _phantom: PhantomData,
        })
    }
}

impl BezierBuilder<Unknown, Unknown, Unknown, Unknown> {
    /// Create a bezier curve builder.
    pub fn new() -> (r: Self)
        ensures
            r.state() is Ok,
    {
        BezierBuilder { inner: Ok(BezierDirector::new()) }
    }

    /// Set the elements for this interpolation; building fails with [`Empty`] if no elements
    /// were given.
    pub fn elements<E>(self, elements: E) -> (r: BezierBuilder<Unknown, E, Unknown, WithoutWeight>)
        where E: DiscreteGenerator
        ensures
            self.state() matches Err(err) ==> r.state() == Err::<
                BezierDirector<Unknown, E, Unknown, WithoutWeight>,
                BezierError,
            >(err),
            self.state() is Ok && elements.len_spec() == 0 ==> r.state() == Err::<
                BezierDirector<Unknown, E, Unknown, WithoutWeight>,
                BezierError,
            >(BezierError::Empty(Empty {})),
            self.state() is Ok && elements.len_spec() > 0 ==> (r.state() matches Ok(d)
                && d.elements_spec() == elements),
    {
        let inner = match self.inner {
            Err(err) => Err(err),
            Ok(director) => match director.elements(elements) {
                Ok(d) => Ok(d),
                Err(err) => Err(BezierError::from(err)),
            },
        };
        BezierBuilder { inner }
    }
}

impl BezierBuilder<Unknown, Unknown, Unknown, Unknown> {
    /// Set the elements and their weights for this interpolation; building fails with
    /// [`Empty`] if no elements were given.
    pub fn elements_with_weights<G>(self, gen: G) -> (r: BezierBuilder<
        Unknown,
        Weights<G>,
        Unknown,
        WithWeight,
    >) where G: DiscreteGenerator, G::Output: IntoWeight
        requires
            forall|o: G::Output| #[trigger] o.into_weight_req(),
        ensures
            self.state() matches Err(err) ==> r.state() == Err::<
                BezierDirector<Unknown, Weights<G>, Unknown, WithWeight>,
                BezierError,
            >(err),
            self.state() is Ok && gen.len_spec() == 0 ==> r.state() == Err::<
                BezierDirector<Unknown, Weights<G>, Unknown, WithWeight>,
                BezierError,
            >(BezierError::Empty(Empty {})),
            self.state() is Ok && gen.len_spec() > 0 ==> (r.state() matches Ok(d)
                && d.elements_spec().inner() == gen),
    {
        let inner = match self.inner {
            Err(err) => Err(err),
            Ok(director) => match director.elements_with_weights(gen) {
                Ok(d) => Ok(d),
                Err(err) => Err(BezierError::from(err)),
            },
        };
        BezierBuilder { inner }
    }
}

impl<E, W> BezierDirector<Unknown, E, Unknown, W> {
    /// Set the input domain to be `[0, 1]`.
    pub fn normalized<R>(self) -> (r: BezierDirector<NormalizedInput<R>, E, Unknown, W>)
        ensures
            r.elements_spec() == self.elements_spec(),
    {
        BezierDirector {
            input: NormalizedInput::new(),
            space: self.space,
            elements: self.elements,
            _phantom: self._phantom,
        }
    }

    /// Set the input domain to be `[start, end]`.
    pub fn domain<R>(self, start: R, end: R) -> (r: BezierDirector<InputDomain<R>, E, Unknown, W>)
        ensures
            r.elements_spec() == self.elements_spec(),
            r.input_spec().start == start,
            r.input_spec().end == end,
    {
        BezierDirector {
            input: InputDomain::new(start, end),
            space: self.space,
            elements: self.elements,
            _phantom: self._phantom,
        }
    }
}

impl<E, W> BezierBuilder<Unknown, E, Unknown, W> {
    /// Set the input domain to be `[0, 1]`.
    pub fn normalized<R>(self) -> (r: BezierBuilder<NormalizedInput<R>, E, Unknown, W>)
        ensures
            self.state() matches Err(err) ==> r.state() == Err::<
                BezierDirector<NormalizedInput<R>, E, Unknown, W>,
                BezierError,
            >(err),
            self.state() matches Ok(d) ==> (r.state() matches Ok(n) && n.elements_spec()
                == d.elements_spec()),
    {
        let inner = match self.inner {
            Err(err) => Err(err),
            Ok(director) => Ok(director.normalized()),
        };
        BezierBuilder { inner }
    }

    /// Set the input domain to be `[start, end]`.
    pub fn domain<R>(self, start: R, end: R) -> (r: BezierBuilder<InputDomain<R>, E, Unknown, W>)
        ensures
            self.state() matches Err(err) ==> r.state() == Err::<
                BezierDirector<InputDomain<R>, E, Unknown, W>,
                BezierError,
            >(err),
            self.state() matches Ok(d) ==> (r.state() matches Ok(n) && n.elements_spec()
                == d.elements_spec() && n.input_spec().start == start && n.input_spec().end == end),
    {
        let inner = match self.inner {
            Err(err) => Err(err),
            Ok(director) => Ok(director.domain(start, end)),
        };
        BezierBuilder { inner }
    }
}

impl<I, E, W> BezierDirector<I, E, Unknown, W> where E: DiscreteGenerator {
    /// Use a workspace allocated at run time, as large as there are elements.
    pub fn dynamic(self) -> (r: BezierDirector<I, E, DynSpace<E::Output>, W>)
        ensures
            r.elements_spec() == self.elements_spec(),
            r.input_spec() == self.input_spec(),
            r.space_spec().len_spec() == self.elements_spec().len_spec(),
    {
        let len = self.elements.len();
        BezierDirector {
            input: self.input,
            space: DynSpace::new(len),
            elements: self.elements,
            _phantom: self._phantom,
        }
    }

    /// Use a workspace of the length of the elements known at compile time.
    pub fn constant<const N: usize>(self) -> (r: BezierDirector<I, E, ConstSpace<E::Output, N>, W>)
        where E: ConstDiscreteGenerator<N>
        ensures
            r.elements_spec() == self.elements_spec(),
            r.input_spec() == self.input_spec(),
    {
        BezierDirector {
            input: self.input,
            space: ConstSpace::new(),
            elements: self.elements,
            _phantom: self._phantom,
        }
    }

    /// Use the given workspace.
    ///
    /// # Errors
    ///
    /// [`TooSmallWorkspace`] if the workspace has less room than there are elements.
    pub fn workspace<S>(self, space: S) -> (r: Result<BezierDirector<I, E, S, W>, TooSmallWorkspace>)
        where S: Space<E::Output>
        ensures
            space.len_spec() < self.elements_spec().len_spec() <==> r is Err,
            r matches Err(err) ==> err.found_spec() == space.len_spec() && err.necessary_spec()
                == self.elements_spec().len_spec(),
            r matches Ok(d) ==> d.elements_spec() == self.elements_spec() && d.input_spec() == self.input_spec()
                && d.space_spec() == space,
    {
        let found = space.len();
        let necessary = self.elements.len();
        if found < necessary {
            return Err(TooSmallWorkspace::new(found, necessary));
        }
        Ok(BezierDirector { input: self.input, space, elements: self.elements, _phantom: self._phantom })
    }
}

impl<I, E, W> BezierBuilder<I, E, Unknown, W> where E: DiscreteGenerator {
    /// Use a workspace allocated at run time, as large as there are elements.
    pub fn dynamic(self) -> (r: BezierBuilder<I, E, DynSpace<E::Output>, W>)
        ensures
            self.state() matches Err(err) ==> r.state() == Err::<
                BezierDirector<I, E, DynSpace<E::Output>, W>,
                BezierError,
            >(err),
            self.state() matches Ok(d) ==> (r.state() matches Ok(n) && n.elements_spec()
                == d.elements_spec() && n.input_spec() == d.input_spec() && n.space_spec().len_spec()
                == d.elements_spec().len_spec()),
    {
        let inner = match self.inner {
            Err(err) => Err(err),
            Ok(director) => Ok(director.dynamic()),
        };
        BezierBuilder { inner }
    }

    /// Use a workspace of the length of the elements known at compile time.
    pub fn constant<const N: usize>(self) -> (r: BezierBuilder<I, E, ConstSpace<E::Output, N>, W>)
        where E: ConstDiscreteGenerator<N>
        ensures
            self.state() matches Err(err) ==> r.state() == Err::<
                BezierDirector<I, E, ConstSpace<E::Output, N>, W>,
                BezierError,
            >(err),
            self.state() matches Ok(d) ==> (r.state() matches Ok(n) && n.elements_spec()
                == d.elements_spec() && n.input_spec() == d.input_spec()),
    {
        let inner = match self.inner {
            Err(err) => Err(err),
            Ok(director) => Ok(director.constant()),
        };
        BezierBuilder { inner }
    }

    /// Use the given workspace; building fails with [`TooSmallWorkspace`] if it has less room
    /// than there are elements.
    pub fn workspace<S>(self, space: S) -> (r: BezierBuilder<I, E, S, W>)
        where S: Space<E::Output>
        ensures
            self.state() matches Err(err) ==> r.state() == Err::<BezierDirector<I, E, S, W>, BezierError>(
                err,
            ),
            self.state() matches Ok(d) ==> (space.len_spec() < d.elements_spec().len_spec() ==> (
            r.state() matches Err(BezierError::TooSmallWorkspace(err)) && err.found_spec()
                == space.len_spec() && err.necessary_spec() == d.elements_spec().len_spec())),
            self.state() matches Ok(d) ==> (space.len_spec() >= d.elements_spec().len_spec() ==> (
            r.state() matches Ok(n) && n.elements_spec() == d.elements_spec() && n.input_spec() == d.input_spec()
                && n.space_spec() == space)),
    {
        let inner = match self.inner {
            Err(err) => Err(err),
            Ok(director) => match director.workspace(space) {
                Ok(d) => Ok(d),
                Err(err) => Err(BezierError::from(err)),
            },
        };
        BezierBuilder { inner }
    }
}

impl<R, E, S> BezierDirector<NormalizedInput<R>, E, S, WithoutWeight> where
    E: DiscreteGenerator,
    E::Output: Add<Output = E::Output> + Mul<R, Output = E::Output> + Copy,
    S: Space<E::Output>,
    R: Scalar,
 {
    /// Build a bezier curve with the domain `[0, 1]`.
    pub fn build(self) -> (r: Bezier<R, E, S>)
        ensures
            r.elements() == self.elements_spec(),
            r.space() == self.space_spec(),
    {
        Bezier::new_unchecked(self.elements, self.space)
    }
}

impl<R, E, S> BezierBuilder<NormalizedInput<R>, E, S, WithoutWeight> where
    E: DiscreteGenerator,
    E::Output: Add<Output = E::Output> + Mul<R, Output = E::Output> + Copy,
    S: Space<E::Output>,
    R: Scalar,
 {
    /// Build a bezier curve with the domain `[0, 1]`, or return the first error that occured.
    pub fn build(self) -> (r: Result<Bezier<R, E, S>, BezierError>)
        ensures
            self.state() matches Err(err) ==> r == Err::<Bezier<R, E, S>, BezierError>(err),
            self.state() matches Ok(d) ==> (r matches Ok(b) && b.elements() == d.elements_spec()
                && b.space() == d.space_spec()),
    {
        match self.inner {
            Err(err) => Err(err),
            Ok(director) => Ok(director.build()),
        }
    }
}

impl<R, E, S> BezierDirector<InputDomain<R>, E, S, WithoutWeight> where
    E: DiscreteGenerator,
    E::Output: Add<Output = E::Output> + Mul<R, Output = E::Output> + Copy,
    S: Space<E::Output>,
    R: Scalar,
 {
    /// Build a bezier curve with the domain given.
    pub fn build(self) -> (r: TransformInput<Bezier<R, E, S>, R, R>)
        requires
            scalar_ops_defined::<R>(),
            negation_defined::<R>(),
        ensures
            r.inner().elements() == self.elements_spec(),
            r.inner().space() == self.space_spec(),
            maps_unit_to_domain(r, self.input_spec().start, self.input_spec().end),
    {
        TransformInput::normalized_to_domain(
            Bezier::new_unchecked(self.elements, self.space),
            self.input.start,
            self.input.end,
        )
    }
}

impl<R, E, S> BezierBuilder<InputDomain<R>, E, S, WithoutWeight> where
    E: DiscreteGenerator,
    E::Output: Add<Output = E::Output> + Mul<R, Output = E::Output> + Copy,
    S: Space<E::Output>,
    R: Scalar,
 {
    /// Build a bezier curve with the domain given, or return the first error that occured.
    pub fn build(self) -> (r: Result<TransformInput<Bezier<R, E, S>, R, R>, BezierError>)
        requires
            scalar_ops_defined::<R>(),
            negation_defined::<R>(),
        ensures
            self.state() matches Err(err) ==> r == Err::<
                TransformInput<Bezier<R, E, S>, R, R>,
                BezierError,
            >(err),
            self.state() matches Ok(d) ==> (r matches Ok(t) && t.inner().elements()
                == d.elements_spec() && t.inner().space() == d.space_spec() && maps_unit_to_domain(
                t,
                d.input_spec().start,
                d.input_spec().end,
            )),
    {
        match self.inner {
            Err(err) => Err(err),
            Ok(director) => Ok(director.build()),
        }
    }
}

impl<R, G, S> BezierDirector<NormalizedInput<R>, Weights<G>, S, WithWeight> where
    G: DiscreteGenerator,
    G::Output: IntoWeight,
    S: Space<Homogeneous<<G::Output as IntoWeight>::Element, <G::Output as IntoWeight>::Weight>>,
 {
    /// Build a weighted bezier curve with the domain `[0, 1]`.
    pub fn build(self) -> (r: Weighted<Bezier<R, Weights<G>, S>>)
        ensures
            r.wrapped().elements() == self.elements_spec(),
            r.wrapped().space() == self.space_spec(),
    {
        Weighted::new(Bezier::new_unchecked(self.elements, self.space))
    }
}

impl<R, G, S> BezierBuilder<NormalizedInput<R>, Weights<G>, S, WithWeight> where
    G: DiscreteGenerator,
    G::Output: IntoWeight,
    S: Space<Homogeneous<<G::Output as IntoWeight>::Element, <G::Output as IntoWeight>::Weight>>,
 {
    /// Build a weighted bezier curve with the domain `[0, 1]`, or return the first error that
    /// occured.
    pub fn build(self) -> (r: Result<Weighted<Bezier<R, Weights<G>, S>>, BezierError>)
        ensures
            self.state() matches Err(err) ==> r == Err::<
                Weighted<Bezier<R, Weights<G>, S>>,
                BezierError,
            >(err),
            self.state() matches Ok(d) ==> (r matches Ok(w) && w.wrapped().elements()
                == d.elements_spec() && w.wrapped().space() == d.space_spec()),
    {
        match self.inner {
            Err(err) => Err(err),
            Ok(director) => Ok(director.build()),
        }
    }
}

impl<R, G, S> BezierDirector<InputDomain<R>, Weights<G>, S, WithWeight> where
    G: DiscreteGenerator,
    G::Output: IntoWeight,
    S: Space<Homogeneous<<G::Output as IntoWeight>::Element, <G::Output as IntoWeight>::Weight>>,
    R: Scalar,
    Weighted<Bezier<R, Weights<G>, S>>: Curve<R>,
 {
    /// Build a weighted bezier curve with the domain given.
    pub fn build(self) -> (r: TransformInput<Weighted<Bezier<R, Weights<G>, S>>, R, R>)
        requires
            scalar_ops_defined::<R>(),
            negation_defined::<R>(),
        ensures
            r.inner().wrapped().elements() == self.elements_spec(),
            r.inner().wrapped().space() == self.space_spec(),
            maps_unit_to_domain(r, self.input_spec().start, self.input_spec().end),
    {
        TransformInput::normalized_to_domain(
            Weighted::new(Bezier::new_unchecked(self.elements, self.space)),
            self.input.start,
            self.input.end,
        )
    }
}

impl<R, G, S> BezierBuilder<InputDomain<R>, Weights<G>, S, WithWeight> where
    G: DiscreteGenerator,
    G::Output: IntoWeight,
    S: Space<Homogeneous<<G::Output as IntoWeight>::Element, <G::Output as IntoWeight>::Weight>>,
    R: Scalar,
    Weighted<Bezier<R, Weights<G>, S>>: Curve<R>,
 {
    /// Build a weighted bezier curve with the domain given, or return the first error that
    /// occured.
    pub fn build(self) -> (r: Result<
        TransformInput<Weighted<Bezier<R, Weights<G>, S>>, R, R>,
        BezierError,
    >)
        requires
            scalar_ops_defined::<R>(),
            negation_defined::<R>(),
        ensures
            self.state() matches Err(err) ==> r == Err::<
                TransformInput<Weighted<Bezier<R, Weights<G>, S>>, R, R>,
                BezierError,
            >(err),
            self.state() matches Ok(d) ==> (r matches Ok(t) && t.inner().wrapped().elements()
                == d.elements_spec() && t.inner().wrapped().space() == d.space_spec()
                && maps_unit_to_domain(t, d.input_spec().start, d.input_spec().end)),
    {
        match self.inner {
            Err(err) => Err(err),
            Ok(director) => Ok(director.build()),
        }
    }
}

impl Bezier<Unknown, Unknown, Unknown> {
    /// Get a builder for bezier curves.
    pub fn builder() -> (r: BezierBuilder<Unknown, Unknown, Unknown, Unknown>)
        ensures
            r.state() is Ok,
    {
        BezierBuilder::new()
    }
}

} // verus!
