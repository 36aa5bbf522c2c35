//! Builder for linear interpolations.
//!
//! The director takes the information step by step, each fallible step returning a `Result`;
//! the builder carries the first error through all later steps and returns it on `build`.
use vstd::prelude::*;
use core::marker::PhantomData;
use super::Linear;
use super::error::{LinearError, TooFewElements, KnotElementInequality};
use crate::base::{DiscreteGenerator, SortedGenerator, Sorted, Equidistant};
use crate::scalar::{Scalar, scalar_ops_defined, scalar_ops_obeyed, scalar_of, one, zero};
use vstd::std_specs::ops::{SubSpec, DivSpec};
use crate::bspline::builder::sort_check;
use crate::builder::{Type, Unknown, WithWeight, WithoutWeight};
use crate::weights::{IntoWeight, Weighted, Weights};
use crate::easing::Identity;

verus! {

/// Builder for linear interpolations whose steps may fail.
#[derive(Debug)]
pub struct LinearDirector<K, E, F, W> {
    knots: K,
    elements: E,
    easing: F,
    _phantom: PhantomData<W>,
}

/// Builder for linear interpolations, which reports an error only when building.
#[derive(Debug)]
pub struct LinearBuilder<K, E, F, W> {
    inner: Result<LinearDirector<K, E, F, W>, LinearError>,
}

impl<K, E, F, W> LinearDirector<K, E, F, W> {
    /// The knots given.
    pub closed spec fn knots_spec(&self) -> K {
        self.knots
    }

    /// The elements given.
    pub closed spec fn elements_spec(&self) -> E {
        self.elements
    }

    /// The easing given.
    pub closed spec fn easing_spec(&self) -> F {
        self.easing
    }
}

impl<K, E, F, W> LinearBuilder<K, E, F, W> {
    /// The director the builder holds, or the first error that occured.
    pub closed spec fn state(&self) -> Result<LinearDirector<K, E, F, W>, LinearError> {
        self.inner
    }
}

/// The outcome of giving `knots` to a director with the given elements: there have to be as
/// many knots as elements, and they have to be sorted.
pub open spec fn linear_knots_outcome<K, E, F, W>(
    elements: E,
    easing: F,
    knots: K,
    r: Result<LinearDirector<Sorted<K>, E, F, W>, LinearError>,
) -> bool where E: DiscreteGenerator, K: DiscreteGenerator, K::Output: PartialOrd {
    if elements.len_spec() != knots.len_spec() {
        r matches Err(LinearError::KnotElementInequality(err)) && err.elements_spec()
            == elements.len_spec() && err.knots_spec() == knots.len_spec()
    } else {
        match r {
            Ok(d) => d.knots_spec().inner() == knots && d.elements_spec() == elements
                && d.easing_spec() == easing && sort_check(knots, None),
            Err(LinearError::NotSorted(ns)) => sort_check(knots, Some(ns)),
            Err(_) => false,
        }
    }
}

impl Default for LinearDirector<Unknown, Unknown, Identity, Unknown> {
    fn default() -> (r: Self)
        ensures
            r.easing_spec() == (Identity {}),
    {
        LinearDirector::new()
    }
}

impl Default for LinearBuilder<Unknown, Unknown, Identity, Unknown> {
    fn default() -> (r: Self)
        ensures
            r.state() is Ok,
    {
        LinearBuilder::new()
    }
}

impl LinearDirector<Unknown, Unknown, Identity, Unknown> {
    /// Create a new linear interpolation director, using the identity as easing.
    pub fn new() -> (r: Self)
        ensures
            r.knots_spec() == Unknown,
            r.elements_spec() == Unknown,
            r.easing_spec() == (Identity {}),
    {
        LinearDirector {
            knots: Unknown,
            elements: Unknown,
            easing: Identity::new(),
            _phantom: PhantomData,
        }
    }
}

impl LinearBuilder<Unknown, Unknown, Identity, Unknown> {
    /// Create a new linear interpolation builder, using the identity as easing.
    pub fn new() -> (r: Self)
        ensures
            r.state() matches Ok(d) && d.easing_spec() == (Identity {}),
    {
        LinearBuilder { inner: Ok(LinearDirector::new()) }
    }
}

impl<F> LinearDirector<Unknown, Unknown, F, Unknown> {
    /// Set the elements of the linear interpolation.
    ///
    /// # Errors
    ///
    /// [`TooFewElements`] if there are less than two elements.
    pub fn elements<E>(self, elements: E) -> (r: Result<
        LinearDirector<Unknown, E, F, WithoutWeight>,
        TooFewElements,
    >) where E: DiscreteGenerator
        ensures
            elements.len_spec() < 2 <==> r is Err,
            r matches Err(err) ==> err.found_spec() == elements.len_spec(),
            r matches Ok(d) ==> d.elements_spec() == elements && d.easing_spec()
                == self.easing_spec(),
    {
        let len = elements.len();
        if len < 2 {
            return Err(TooFewElements::new(len));
        }
        Ok(LinearDirector { knots: self.knots, elements, easing: self.easing, _phantom: PhantomData })
    }
}

impl<F> LinearBuilder<Unknown, Unknown, F, Unknown> {
    /// Set the elements of the linear interpolation; building fails with [`TooFewElements`] if
    /// there are less than two elements.
    pub fn elements<E>(self, elements: E) -> (r: LinearBuilder<Unknown, E, F, WithoutWeight>)
        where E: DiscreteGenerator
        ensures
            self.state() matches Err(err) ==> r.state() == Err::<
                LinearDirector<Unknown, E, F, WithoutWeight>,
                LinearError,
            >(err),
            self.state() is Ok && elements.len_spec() < 2 ==> (r.state() matches Err(
                LinearError::ToFewElements(err),
            ) && err.found_spec() == elements.len_spec()),
            self.state() matches Ok(d) ==> (elements.len_spec() >= 2 ==> (r.state() matches Ok(
                n,
            ) && n.elements_spec() == elements && n.easing_spec() == d.easing_spec())),
    {
        let inner = match self.inner {
            Err(err) => Err(err),
            Ok(director) => match director.elements(elements) {
                Ok(d) => Ok(d),
                Err(err) => Err(LinearError::from(err)),
            },
        };
        LinearBuilder { inner }
    }
}

impl<F> LinearDirector<Unknown, Unknown, F, Unknown> {
    /// Set the elements and their weights.
    ///
    /// # Errors
    ///
    /// [`TooFewElements`] if there are less than two elements.
    pub fn elements_with_weights<G>(self, gen: G) -> (r: Result<
        LinearDirector<Unknown, Weights<G>, F, WithWeight>,
        TooFewElements,
    >) where G: DiscreteGenerator, G::Output: IntoWeight
        requires
            forall|o: G::Output| #[trigger] o.into_weight_req(),
        ensures
            gen.len_spec() < 2 <==> r is Err,
            r matches Err(err) ==> err.found_spec() == gen.len_spec(),
            r matches Ok(d) ==> d.elements_spec().inner() == gen && d.easing_spec()
                == self.easing_spec(),
    {
        let len = gen.len();
        if len < 2 {
            return Err(TooFewElements::new(len));
        }
        Ok(LinearDirector {
            knots: self.knots,
            elements: Weights::new(gen),
            easing: self.easing,
            _phantom: PhantomData,
        })
    }
}

impl<F> LinearBuilder<Unknown, Unknown, F, Unknown> {
    /// Set the elements and their weights; building fails with [`TooFewElements`] if there are
    /// less than two elements.
    pub fn elements_with_weights<G>(self, gen: G) -> (r: LinearBuilder<
        Unknown,
        Weights<G>,
        F,
        WithWeight,
    >) where G: DiscreteGenerator, G::Output: IntoWeight
        requires
            forall|o: G::Output| #[trigger] o.into_weight_req(),
        ensures
            self.state() matches Err(err) ==> r.state() == Err::<
                LinearDirector<Unknown, Weights<G>, F, WithWeight>,
                LinearError,
            >(err),
            self.state() is Ok && gen.len_spec() < 2 ==> (r.state() matches Err(
                LinearError::ToFewElements(err),
            ) && err.found_spec() == gen.len_spec()),
            self.state() matches Ok(d) ==> (gen.len_spec() >= 2 ==> (r.state() matches Ok(n)
                && n.elements_spec().inner() == gen && n.easing_spec() == d.easing_spec())),
    {
        let inner = match self.inner {
            Err(err) => Err(err),
            Ok(director) => match director.elements_with_weights(gen) {
                Ok(d) => Ok(d),
                Err(err) => Err(LinearError::from(err)),
            },
        };
        LinearBuilder { inner }
    }
}

impl<E, F, W> LinearDirector<Unknown, E, F, W> {
    /// Set the knots of the interpolation.
    ///
    /// # Errors
    ///
    /// [`KnotElementInequality`] if the number of knots is not equal to the number of elements.
    /// [`NotSorted`] if the knots are not sorted.
    pub fn knots<K>(self, knots: K) -> (r: Result<LinearDirector<Sorted<K>, E, F, W>, LinearError>)
        where E: DiscreteGenerator, K: DiscreteGenerator, K::Output: PartialOrd
        ensures
            linear_knots_outcome(self.elements_spec(), self.easing_spec(), knots, r),
    {
        let e = self.elements.len();
        let k = knots.len();
        if e != k {
            return Err(LinearError::from(KnotElementInequality::new(e, k)));
        }
        match Sorted::new(knots) {
            Ok(sorted) => Ok(
                LinearDirector {
                    knots: sorted,
                    elements: self.elements,
                    easing: self.easing,
                    _phantom: self._phantom,
                },
            ),
            Err(err) => Err(LinearError::from(err)),
        }
    }

    /// Use equidistant knots of the type `R`; their domain is given next.
    pub fn equidistant<R>(self) -> (r: LinearDirector<Type<R>, E, F, W>)
        ensures
            r.elements_spec() == self.elements_spec(),
            r.easing_spec() == self.easing_spec(),
    {
        LinearDirector {
            knots: Type::new(),
            elements: self.elements,
            easing: self.easing,
            _phantom: self._phantom,
        }
    }
}

impl<E, F, W> LinearBuilder<Unknown, E, F, W> {
    /// Set the knots of the interpolation; building fails with [`KnotElementInequality`] if
    /// the number of knots is not equal to the number of elements and with [`NotSorted`] if
    /// the knots are not sorted.
    pub fn knots<K>(self, knots: K) -> (r: LinearBuilder<Sorted<K>, E, F, W>)
        where E: DiscreteGenerator, K: DiscreteGenerator, K::Output: PartialOrd
        ensures
            self.state() matches Err(err) ==> r.state() == Err::<
                LinearDirector<Sorted<K>, E, F, W>,
                LinearError,
            >(err),
            self.state() matches Ok(d) ==> linear_knots_outcome(
                d.elements_spec(),
                d.easing_spec(),
                knots,
                r.state(),
            ),
    {
        let inner = match self.inner {
            Err(err) => Err(err),
            Ok(director) => director.knots(knots),
        };
        LinearBuilder { inner }
    }

    /// Use equidistant knots of the type `R`; their domain is given next.
    pub fn equidistant<R>(self) -> (r: LinearBuilder<Type<R>, E, F, W>)
        ensures
            self.state() matches Err(err) ==> r.state() == Err::<
                LinearDirector<Type<R>, E, F, W>,
                LinearError,
            >(err),
            self.state() matches Ok(d) ==> (r.state() matches Ok(n) && n.elements_spec()
                == d.elements_spec() && n.easing_spec() == d.easing_spec()),
    {
        let inner = match self.inner {
            Err(err) => Err(err),
            Ok(director) => Ok(director.equidistant()),
        };
        LinearBuilder { inner }
    }
}

/// The knots are `len` equidistant knots from `start` to `end`.
pub open spec fn spans<R: Scalar>(knots: Equidistant<R>, len: nat, start: R, end: R) -> bool {
    &&& knots.length() == len
    &&& knots.offset() == start
    &&& scalar_ops_obeyed::<R>() ==> knots.step_spec() == end.sub_spec(start).div_spec(
        scalar_of::<R>((len - 1) as nat),
    )
}

impl<R, E, F, W> LinearDirector<Type<R>, E, F, W> where E: DiscreteGenerator, R: Scalar {
    /// Use equidistant knots from `start` to `end`, one for each element.
    pub fn domain(self, start: R, end: R) -> (r: LinearDirector<Equidistant<R>, E, F, W>)
        requires
            self.elements_spec().len_spec() >= 1,
            scalar_ops_defined::<R>(),
        ensures
            r.elements_spec() == self.elements_spec(),
            r.easing_spec() == self.easing_spec(),
            spans(r.knots_spec(), self.elements_spec().len_spec(), start, end),
    {
        let len = self.elements.len();
        LinearDirector {
            knots: Equidistant::new(len, start, end),
            elements: self.elements,
            easing: self.easing,
            _phantom: self._phantom,
        }
    }

    /// Use equidistant knots from 0 to 1, one for each element.
    pub fn normalized(self) -> (r: LinearDirector<Equidistant<R>, E, F, W>)
        requires
            self.elements_spec().len_spec() >= 1,
            scalar_ops_defined::<R>(),
        ensures
            r.elements_spec() == self.elements_spec(),
            r.easing_spec() == self.easing_spec(),
            r.knots_spec().length() == self.elements_spec().len_spec(),
            scalar_ops_obeyed::<R>() ==> r.knots_spec().offset() == zero::<R>()
                && r.knots_spec().step_spec() == one::<R>().div_spec(
                scalar_of::<R>((self.elements_spec().len_spec() - 1) as nat),
            ),
    {
        let len = self.elements.len();
        LinearDirector {
            knots: Equidistant::normalized(len),
            elements: self.elements,
            easing: self.easing,
            _phantom: self._phantom,
        }
    }

    /// Use equidistant knots starting at `start`, `step` apart, one for each element.
    pub fn distance(self, start: R, step: R) -> (r: LinearDirector<Equidistant<R>, E, F, W>)
        requires
            scalar_ops_defined::<R>(),
        ensures
            r.elements_spec() == self.elements_spec(),
            r.easing_spec() == self.easing_spec(),
            r.knots_spec().length() == self.elements_spec().len_spec(),
            r.knots_spec().offset() == start,
            r.knots_spec().step_spec() == step,
    {
        let len = self.elements.len();
        LinearDirector {
            knots: Equidistant::step(len, start, step),
            elements: self.elements,
            easing: self.easing,
            _phantom: self._phantom,
        }
    }
}

impl<R, E, F, W> LinearBuilder<Type<R>, E, F, W> where E: DiscreteGenerator, R: Scalar {
    /// Use equidistant knots from `start` to `end`, one for each element.
    pub fn domain(self, start: R, end: R) -> (r: LinearBuilder<Equidistant<R>, E, F, W>)
        requires
            self.state() matches Ok(d) ==> d.elements_spec().len_spec() >= 1,
            scalar_ops_defined::<R>(),
        ensures
            self.state() matches Err(err) ==> r.state() == Err::<
                LinearDirector<Equidistant<R>, E, F, W>,
                LinearError,
            >(err),
            self.state() matches Ok(d) ==> (r.state() matches Ok(n) && n.elements_spec()
                == d.elements_spec() && n.easing_spec() == d.easing_spec() && spans(
                n.knots_spec(),
                d.elements_spec().len_spec(),
                start,
                end,
            )),
    {
        let inner = match self.inner {
            Err(err) => Err(err),
            Ok(director) => Ok(director.domain(start, end)),
        };
        LinearBuilder { inner }
    }

    /// Use equidistant knots from 0 to 1, one for each element.
    pub fn normalized(self) -> (r: LinearBuilder<Equidistant<R>, E, F, W>)
        requires
            self.state() matches Ok(d) ==> d.elements_spec().len_spec() >= 1,
            scalar_ops_defined::<R>(),
        ensures
            self.state() matches Err(err) ==> r.state() == Err::<
                LinearDirector<Equidistant<R>, E, F, W>,
                LinearError,
            >(err),
            self.state() matches Ok(d) ==> (r.state() matches Ok(n) && n.elements_spec()
                == d.elements_spec() && n.easing_spec() == d.easing_spec()
                && n.knots_spec().length() == d.elements_spec().len_spec() && (
            scalar_ops_obeyed::<R>() ==> n.knots_spec().offset() == zero::<R>()
                && n.knots_spec().step_spec() == one::<R>().div_spec(
                scalar_of::<R>((d.elements_spec().len_spec() - 1) as nat),
            ))),
    {
        let inner = match self.inner {
            Err(err) => Err(err),
            Ok(director) => Ok(director.normalized()),
        };
        LinearBuilder { inner }
    }

    /// Use equidistant knots starting at `start`, `step` apart, one for each element.
    pub fn distance(self, start: R, step: R) -> (r: LinearBuilder<Equidistant<R>, E, F, W>)
        requires
            scalar_ops_defined::<R>(),
        ensures
            self.state() matches Err(err) ==> r.state() == Err::<
                LinearDirector<Equidistant<R>, E, F, W>,
                LinearError,
            >(err),
            self.state() matches Ok(d) ==> (r.state() matches Ok(n) && n.elements_spec()
                == d.elements_spec() && n.easing_spec() == d.easing_spec()
                && n.knots_spec().length() == d.elements_spec().len_spec()
                && n.knots_spec().offset() == start && n.knots_spec().step_spec() == step),
    {
        let inner = match self.inner {
            Err(err) => Err(err),
            Ok(director) => Ok(director.distance(start, step)),
        };
        LinearBuilder { inner }
    }
}

impl<K, E, F, W> LinearDirector<K, E, F, W> where K: SortedGenerator {
    /// Set the easing of the interpolation, which changes its velocity.
    pub fn easing<FF>(self, easing: FF) -> (r: LinearDirector<K, E, FF, W>)
        ensures
            r.knots_spec() == self.knots_spec(),
            r.elements_spec() == self.elements_spec(),
            r.easing_spec() == easing,
    {
        LinearDirector {
            knots: self.knots,
            elements: self.elements,
            easing,
            _phantom: self._phantom,
        }
    }
}

impl<K, E, F, W> LinearBuilder<K, E, F, W> where K: SortedGenerator {
    /// Set the easing of the interpolation, which changes its velocity.
    pub fn easing<FF>(self, easing: FF) -> (r: LinearBuilder<K, E, FF, W>)
        ensures
            self.state() matches Err(err) ==> r.state() == Err::<
                LinearDirector<K, E, FF, W>,
                LinearError,
            >(err),
            self.state() matches Ok(d) ==> (r.state() matches Ok(n) && n.knots_spec()
                == d.knots_spec() && n.elements_spec() == d.elements_spec() && n.easing_spec()
                == easing),
    {
        let inner = match self.inner {
            Err(err) => Err(err),
            Ok(director) => Ok(director.easing(easing)),
        };
        LinearBuilder { inner }
    }
}

impl<K, E, F> LinearDirector<K, E, F, WithoutWeight> where E: DiscreteGenerator, K: SortedGenerator {
    /// Build the linear interpolation.
    pub fn build(self) -> (r: Linear<K, E, F>)
        ensures
            r.knots() == self.knots_spec(),
            r.elements() == self.elements_spec(),
            r.easing() == self.easing_spec(),
    {
        Linear::new_unchecked(self.elements, self.knots, self.easing)
    }
}

impl<K, E, F> LinearBuilder<K, E, F, WithoutWeight> where E: DiscreteGenerator, K: SortedGenerator {
    /// Build the linear interpolation, or return the first error that occured.
    pub fn build(self) -> (r: Result<Linear<K, E, F>, LinearError>)
        ensures
            self.state() matches Err(err) ==> r == Err::<Linear<K, E, F>, LinearError>(err),
            self.state() matches Ok(d) ==> (r matches Ok(l) && l.knots() == d.knots_spec()
                && l.elements() == d.elements_spec() && l.easing() == d.easing_spec()),
    {
        match self.inner {
            Err(err) => Err(err),
            Ok(director) => Ok(director.build()),
        }
    }
}

impl<K, G, F> LinearDirector<K, Weights<G>, F, WithWeight> where
    G: DiscreteGenerator,
    G::Output: IntoWeight,
    K: SortedGenerator,
 {
    /// Build the weighted linear interpolation.
    pub fn build(self) -> (r: Weighted<Linear<K, Weights<G>, F>>)
        ensures
            r.wrapped().knots() == self.knots_spec(),
            r.wrapped().elements() == self.elements_spec(),
            r.wrapped().easing() == self.easing_spec(),
    {
        Weighted::new(Linear::new_unchecked(self.elements, self.knots, self.easing))
    }
}

impl<K, G, F> LinearBuilder<K, Weights<G>, F, WithWeight> where
    G: DiscreteGenerator,
    G::Output: IntoWeight,
    K: SortedGenerator,
 {
    /// Build the weighted linear interpolation, or return the first error that occured.
    pub fn build(self) -> (r: Result<Weighted<Linear<K, Weights<G>, F>>, LinearError>)
        ensures
            self.state() matches Err(err) ==> r == Err::<
                Weighted<Linear<K, Weights<G>, F>>,
                LinearError,
            >(err),
            self.state() matches Ok(d) ==> (r matches Ok(w) && w.wrapped().knots()
                == d.knots_spec() && w.wrapped().elements() == d.elements_spec()
                && w.wrapped().easing() == d.easing_spec()),
    {
        match self.inner {
            Err(err) => Err(err),
            Ok(director) => Ok(director.build()),
        }
    }
}

} // verus!
