//! Builder for bspline curves.
//!
//! The director takes the information step by step, each fallible step returning a `Result`;
//! the builder carries the first error through all later steps and returns it on `build`.
//!
//! The mode decides how the knots given are used: `Open` takes them as they are, `Clamped`
//! repeats the first and last knot such that the curve starts and ends at the first and last
//! element, and `Legacy` drops the first and last knot.
use vstd::prelude::*;
use core::marker::PhantomData;
use super::{BSpline, new_outcome};
use super::error::{BSplineError, InvalidDegree, NotSorted};
use super::adaptors::{BorderBuffer, BorderDeletion};
use crate::base::{
    DiscreteGenerator, SortedGenerator, Space, ConstSpace, DynSpace, Sorted, Equidistant, gen_view,
};
use crate::linear::builder::spans;
use crate::scalar::{Scalar, scalar_ops_defined, scalar_ops_obeyed, scalar_of, one, zero};
use vstd::std_specs::ops::DivSpec;
use crate::base::list::{is_sorted_seq, first_unsorted};
use crate::builder::{Unknown, Type, WithWeight, WithoutWeight};
use crate::weights::{Homogeneous, IntoWeight, Weighted, Weights};
use crate::scalar::order_obeyed;

verus! {

/// Mode in which the first and last knot are repeated such that the curve touches its first
/// and last element.
#[derive(Debug, Clone, Copy)]
pub struct Clamped;

/// Mode in which the knots are used as given.
#[derive(Debug, Clone, Copy)]
pub struct Open;

/// Mode in which the first and last knot are ignored, as in other libraries and the literature.
#[derive(Debug, Clone, Copy)]
pub struct Legacy;

/// The number of equidistant knots and the degree, before their domain is known.
#[derive(Debug)]
pub struct UnknownDomain<R> {
    _phantom: PhantomData<R>,
    len: usize,
    deg: usize,
}

impl<R> UnknownDomain<R> {
    /// The number of knots.
    pub closed spec fn len_spec(&self) -> usize {
        self.len
    }

    /// The degree of the curve.
    pub closed spec fn deg_spec(&self) -> usize {
        self.deg
    }

    /// Create the information of `len` knots for a curve of degree `deg`.
    pub fn new(len: usize, deg: usize) -> (r: Self)
        ensures
            r.len_spec() == len,
            r.deg_spec() == deg,
    {
        UnknownDomain { _phantom: PhantomData, len, deg }
    }

    /// The number of knots.
    pub fn len(&self) -> (r: usize)
        ensures
            r == self.len_spec(),
    {
        self.len
    }

    /// The degree of the curve.
    pub fn deg(&self) -> (r: usize)
        ensures
            r == self.deg_spec(),
    {
        self.deg
    }
}

/// Builder for bspline curves whose steps may fail.
#[derive(Debug)]
pub struct BSplineDirector<K, E, S, W, M> {
    elements: E,
    knots: K,
    space: S,
    _phantoms: (PhantomData<W>, PhantomData<M>),
}

/// Builder for bspline curves, which reports an error only when building.
#[derive(Debug)]
pub struct BSplineBuilder<K, E, S, W, M> {
    inner: Result<BSplineDirector<K, E, S, W, M>, BSplineError>,
}

impl<K, E, S, W, M> BSplineDirector<K, E, S, W, M> {
    /// The elements given.
    pub closed spec fn elements_spec(&self) -> E {
        self.elements
    }

    /// The knots given.
    pub closed spec fn knots_spec(&self) -> K {
        self.knots
    }

    /// The workspace given.
    pub closed spec fn space_spec(&self) -> S {
        self.space
    }
}

impl<K, E, S, W, M> BSplineBuilder<K, E, S, W, M> {
    /// The director the builder holds, or the first error that occured.
    pub closed spec fn state(&self) -> Result<BSplineDirector<K, E, S, W, M>, BSplineError> {
        self.inner
    }
}

/// Checking that `knots` are sorted gives the error `err` (`None` if they are): fewer than two
/// knots are always sorted, and where the knots obey the specification of their comparison the
/// check fails exactly when they are not sorted, reporting the first decreasing index.
pub open spec fn sort_check<K>(knots: K, err: Option<NotSorted>) -> bool where
    K: DiscreteGenerator,
    K::Output: PartialOrd,
 {
    &&& knots.len_spec() < 2 ==> err is None
    &&& knots.exact() && order_obeyed::<K::Output>() ==> {
        &&& err is None <==> is_sorted_seq(gen_view(&knots))
        &&& err matches Some(e) ==> first_unsorted(gen_view(&knots), e.index_spec() as int)
    }
}

/// Setting the degree or the number of equidistant knots took director `d` to `r`: the
/// elements are kept, and `len` knots are planned for a curve of degree `degree`.
pub open spec fn knots_planned<R, E, W, M>(
    d: BSplineDirector<Type<R>, E, Unknown, W, M>,
    r: BSplineDirector<UnknownDomain<R>, E, Unknown, W, M>,
    len: int,
    degree: int,
) -> bool {
    &&& r.elements_spec() == d.elements_spec()
    &&& r.knots_spec().len_spec() == len
    &&& r.knots_spec().deg_spec() == degree
}

/// The outcome of giving `knots` in open mode to a director with the given elements.
pub open spec fn open_knots_outcome<K, E, W>(
    elements: E,
    knots: K,
    r: Result<BSplineDirector<Sorted<K>, E, Unknown, W, Open>, BSplineError>,
) -> bool where K: DiscreteGenerator, K::Output: PartialOrd {
    match r {
        Ok(d) => d.knots_spec().inner() == knots && d.elements_spec() == elements && sort_check(
            knots,
            None,
        ),
        Err(BSplineError::NotSorted(e)) => sort_check(knots, Some(e)),
        Err(_) => false,
    }
}

/// The outcome of giving `knots` in clamped mode to a director with the given elements: the
/// first and last knot are repeated `elements - knots` more times.
pub open spec fn clamped_knots_outcome<K, E, W>(
    elements: E,
    knots: K,
    r: Result<BSplineDirector<BorderBuffer<Sorted<K>>, E, Unknown, W, Clamped>, BSplineError>,
) -> bool where E: DiscreteGenerator, K: DiscreteGenerator, K::Output: PartialOrd {
    let e = elements.len_spec() as int;
    let k = knots.len_spec() as int;
    if e < k {
        r matches Err(BSplineError::InvalidDegree(err)) && err.degree_spec() == e - k + 1
    } else {
        match r {
            Ok(d) => d.knots_spec().inner().inner() == knots && d.knots_spec().n() == e - k
                && d.elements_spec() == elements && sort_check(knots, None),
            Err(BSplineError::NotSorted(ns)) => sort_check(knots, Some(ns)),
            Err(_) => false,
        }
    }
}

/// The outcome of giving `knots` in legacy mode to a director with the given elements: the
/// first and last knot are dropped, which needs at least two knots.
pub open spec fn legacy_knots_outcome<K, E, W>(
    elements: E,
    knots: K,
    r: Result<BSplineDirector<BorderDeletion<Sorted<K>>, E, Unknown, W, Legacy>, BSplineError>,
) -> bool where K: DiscreteGenerator, K::Output: PartialOrd {
    let k = knots.len_spec() as int;
    match r {
        Ok(d) => d.knots_spec().inner().inner() == knots && d.elements_spec() == elements && k
            >= 2 && sort_check(knots, None),
        Err(BSplineError::NotSorted(ns)) => sort_check(knots, Some(ns)),
        Err(BSplineError::TooFewElements(t)) => k < 2 && t.found_spec() == k && sort_check(
            knots,
            None,
        ),
        Err(_) => false,
    }
}

impl Default for BSplineDirector<Unknown, Unknown, Unknown, Unknown, Open> {
    fn default() -> (r: Self)
        ensures
            r.elements_spec() == Unknown,
    {
        BSplineDirector::new()
    }
}

impl Default for BSplineBuilder<Unknown, Unknown, Unknown, Unknown, Open> {
    fn default() -> (r: Self)
        ensures
            r.state() is Ok,
    {
        BSplineBuilder::new()
    }
}

impl BSplineDirector<Unknown, Unknown, Unknown, Unknown, Open> {
    /// Create a new bspline director, in open mode.
    pub fn new() -> (r: Self)
        ensures
            r.elements_spec() == Unknown,
            r.knots_spec() == Unknown,
            r.space_spec() == Unknown,
    {
        BSplineDirector {
            elements: Unknown,
            knots: Unknown,
            space: Unknown,
            _phantoms: (PhantomData, PhantomData),
        }
    }
}

impl BSplineBuilder<Unknown, Unknown, Unknown, Unknown, Open> {
    /// Create a new bspline builder, in open mode.
    pub fn new() -> (r: Self)
        ensures
            r.state() is Ok,
    {
        BSplineBuilder { inner: Ok(BSplineDirector::new()) }
    }
}

impl<M> BSplineDirector<Unknown, Unknown, Unknown, Unknown, M> {
    /// Use the knots as given.
    pub fn open(self) -> (r: BSplineDirector<Unknown, Unknown, Unknown, Unknown, Open>)
        ensures
            r.elements_spec() == Unknown,
    {
        BSplineDirector {
            knots: self.knots,
            space: self.space,
            elements: self.elements,
            _phantoms: (self._phantoms.0, PhantomData),
        }
    }

    /// Repeat the first and last knot such that the curve touches its first and last element.
    pub fn clamped(self) -> (r: BSplineDirector<Unknown, Unknown, Unknown, Unknown, Clamped>)
        ensures
            r.elements_spec() == Unknown,
    {
        BSplineDirector {
            knots: self.knots,
            space: self.space,
            elements: self.elements,
            _phantoms: (self._phantoms.0, PhantomData),
        }
    }

    /// Ignore the first and last knot.
    pub fn legacy(self) -> (r: BSplineDirector<Unknown, Unknown, Unknown, Unknown, Legacy>)
        ensures
            r.elements_spec() == Unknown,
    {
        BSplineDirector {
            knots: self.knots,
            space: self.space,
            elements: self.elements,
            _phantoms: (self._phantoms.0, PhantomData),
        }
    }

    /// Set the elements of the curve.
    pub fn elements<E>(self, elements: E) -> (r: BSplineDirector<Unknown, E, Unknown, WithoutWeight, M>)
        where E: DiscreteGenerator
        ensures
            r.elements_spec() == elements,
    {
        BSplineDirector {
            knots: self.knots,
            space: self.space,
            elements,
            _phantoms: (PhantomData, self._phantoms.1),
        }
    }
}

impl<M> BSplineDirector<Unknown, Unknown, Unknown, Unknown, M> {
    /// Set the elements and their weights.
    pub fn elements_with_weights<G>(self, gen: G) -> (r: BSplineDirector<
        Unknown,
        Weights<G>,
        Unknown,
        WithWeight,
        M,
    >) where G: DiscreteGenerator, G::Output: IntoWeight
        requires
            forall|o: G::Output| #[trigger] o.into_weight_req(),
        ensures
            r.elements_spec().inner() == gen,
    {
        BSplineDirector {
            space: self.space,
            knots: self.knots,
            elements: Weights::new(gen),
            _phantoms: (PhantomData, self._phantoms.1),
        }
    }
}

impl<M> BSplineBuilder<Unknown, Unknown, Unknown, Unknown, M> {
    /// Use the knots as given.
    pub fn open(self) -> (r: BSplineBuilder<Unknown, Unknown, Unknown, Unknown, Open>)
        ensures
            self.state() matches Err(err) ==> r.state() == Err::<
                BSplineDirector<Unknown, Unknown, Unknown, Unknown, Open>,
                BSplineError,
            >(err),
            self.state() is Ok ==> r.state() is Ok,
    {
        let inner = match self.inner {
            Err(err) => Err(err),
            Ok(director) => Ok(director.open()),
        };
        BSplineBuilder { inner }
    }

    /// Repeat the first and last knot such that the curve touches its first and last element.
    pub fn clamped(self) -> (r: BSplineBuilder<Unknown, Unknown, Unknown, Unknown, Clamped>)
        ensures
            self.state() matches Err(err) ==> r.state() == Err::<
                BSplineDirector<Unknown, Unknown, Unknown, Unknown, Clamped>,
                BSplineError,
            >(err),
            self.state() is Ok ==> r.state() is Ok,
    {
        let inner = match self.inner {
            Err(err) => Err(err),
            Ok(director) => Ok(director.clamped()),
        };
        BSplineBuilder { inner }
    }

    /// Ignore the first and last knot.
    pub fn legacy(self) -> (r: BSplineBuilder<Unknown, Unknown, Unknown, Unknown, Legacy>)
        ensures
            self.state() matches Err(err) ==> r.state() == Err::<
                BSplineDirector<Unknown, Unknown, Unknown, Unknown, Legacy>,
                BSplineError,
            >(err),
            self.state() is Ok ==> r.state() is Ok,
    {
        let inner = match self.inner {
            Err(err) => Err(err),
            Ok(director) => Ok(director.legacy()),
        };
        BSplineBuilder { inner }
    }

    /// Set the elements of the curve.
    pub fn elements<E>(self, elements: E) -> (r: BSplineBuilder<Unknown, E, Unknown, WithoutWeight, M>)
        where E: DiscreteGenerator
        ensures
            self.state() matches Err(err) ==> r.state() == Err::<
                BSplineDirector<Unknown, E, Unknown, WithoutWeight, M>,
                BSplineError,
            >(err),
            self.state() is Ok ==> (r.state() matches Ok(d) && d.elements_spec() == elements),
    {
        let inner = match self.inner {
            Err(err) => Err(err),
            Ok(director) => Ok(director.elements(elements)),
        };
        BSplineBuilder { inner }
    }
}

impl<M> BSplineBuilder<Unknown, Unknown, Unknown, Unknown, M> {
    /// Set the elements and their weights.
    pub fn elements_with_weights<G>(self, gen: G) -> (r: BSplineBuilder<
        Unknown,
        Weights<G>,
        Unknown,
        WithWeight,
        M,
    >) where G: DiscreteGenerator, G::Output: IntoWeight
        requires
            forall|o: G::Output| #[trigger] o.into_weight_req(),
        ensures
            self.state() matches Err(err) ==> r.state() == Err::<
                BSplineDirector<Unknown, Weights<G>, Unknown, WithWeight, M>,
                BSplineError,
            >(err),
            self.state() is Ok ==> (r.state() matches Ok(d) && d.elements_spec().inner() == gen),
    {
        let inner = match self.inner {
            Err(err) => Err(err),
            Ok(director) => Ok(director.elements_with_weights(gen)),
        };
        BSplineBuilder { inner }
    }
}

impl<E, W> BSplineDirector<Unknown, E, Unknown, W, Open> {
    /// Set the knots of the curve.
    ///
    /// # Errors
    ///
    /// [`NotSorted`] if the knots are not sorted.
    pub fn knots<K>(self, knots: K) -> (r: Result<
        BSplineDirector<Sorted<K>, E, Unknown, W, Open>,
        NotSorted,
    >) where E: DiscreteGenerator, K: DiscreteGenerator, K::Output: PartialOrd
        ensures
            open_knots_outcome(
                self.elements_spec(),
                knots,
                match r {
                    Ok(d) => Ok(d),
                    Err(e) => Err(BSplineError::NotSorted(e)),
                },
            ),
    {
        match Sorted::new(knots) {
            Ok(sorted) => Ok(
                BSplineDirector {
                    knots: sorted,
                    elements: self.elements,
                    space: self.space,
                    _phantoms: self._phantoms,
                },
            ),
            Err(err) => Err(err),
        }
    }
}

impl<E, W> BSplineBuilder<Unknown, E, Unknown, W, Open> {
    /// Set the knots of the curve; building fails with [`NotSorted`] if they are not sorted.
    pub fn knots<K>(self, knots: K) -> (r: BSplineBuilder<Sorted<K>, E, Unknown, W, Open>) where
        E: DiscreteGenerator,
        K: DiscreteGenerator,
        K::Output: PartialOrd,
        ensures
            self.state() matches Err(err) ==> r.state() == Err::<
                BSplineDirector<Sorted<K>, E, Unknown, W, Open>,
                BSplineError,
            >(err),
            self.state() matches Ok(d) ==> open_knots_outcome(d.elements_spec(), knots, r.state()),
    {
        let inner = match self.inner {
            Err(err) => Err(err),
            Ok(director) => match director.knots(knots) {
                Ok(d) => Ok(d),
                Err(err) => Err(BSplineError::from(err)),
            },
        };
        BSplineBuilder { inner }
    }
}

impl<E, W> BSplineDirector<Unknown, E, Unknown, W, Clamped> {
    /// Set the knots of the curve; the first and last knot are repeated `elements - knots`
    /// more times.
    ///
    /// # Errors
    ///
    /// [`InvalidDegree`] if there are more knots than elements.
    /// [`NotSorted`] if the knots are not sorted.
    pub fn knots<K>(self, knots: K) -> (r: Result<
        BSplineDirector<BorderBuffer<Sorted<K>>, E, Unknown, W, Clamped>,
        BSplineError,
    >) where E: DiscreteGenerator, K: DiscreteGenerator, K::Output: PartialOrd
        requires
            self.elements_spec().len_spec() <= isize::MAX,
            knots.len_spec() <= isize::MAX,
        ensures
            clamped_knots_outcome(self.elements_spec(), knots, r),
    {
        let e = self.elements.len();
        let k = knots.len();
        if e < k {
            let degree = e as isize - k as isize + 1;
            return Err(BSplineError::from(InvalidDegree::new(degree)));
        }
        let duplicate = e - k;
        match Sorted::new(knots) {
            Ok(sorted) => Ok(
                BSplineDirector {
                    knots: BorderBuffer::new(sorted, duplicate),
                    elements: self.elements,
                    space: self.space,
                    _phantoms: self._phantoms,
                },
            ),
            Err(err) => Err(BSplineError::from(err)),
        }
    }
}

impl<E, W> BSplineBuilder<Unknown, E, Unknown, W, Clamped> {
    /// Set the knots of the curve; the first and last knot are repeated `elements - knots`
    /// more times. Building fails with [`InvalidDegree`] if there are more knots than elements
    /// and with [`NotSorted`] if the knots are not sorted.
    pub fn knots<K>(self, knots: K) -> (r: BSplineBuilder<
        BorderBuffer<Sorted<K>>,
        E,
        Unknown,
        W,
        Clamped,
    >) where E: DiscreteGenerator, K: DiscreteGenerator, K::Output: PartialOrd
        requires
            self.state() matches Ok(d) ==> d.elements_spec().len_spec() <= isize::MAX,
            knots.len_spec() <= isize::MAX,
        ensures
            self.state() matches Err(err) ==> r.state() == Err::<
                BSplineDirector<BorderBuffer<Sorted<K>>, E, Unknown, W, Clamped>,
                BSplineError,
            >(err),
            self.state() matches Ok(d) ==> clamped_knots_outcome(
                d.elements_spec(),
                knots,
                r.state(),
            ),
    {
        let inner = match self.inner {
            Err(err) => Err(err),
            Ok(director) => director.knots(knots),
        };
        BSplineBuilder { inner }
    }
}

impl<E, W> BSplineDirector<Unknown, E, Unknown, W, Legacy> {
    /// Set the knots of the curve; the first and last knot are ignored.
    ///
    /// # Errors
    ///
    /// [`NotSorted`] if the knots are not sorted.
    /// [`TooFewElements`] if there are less than two knots.
    pub fn knots<K>(self, knots: K) -> (r: Result<
        BSplineDirector<BorderDeletion<Sorted<K>>, E, Unknown, W, Legacy>,
        BSplineError,
    >) where E: DiscreteGenerator, K: DiscreteGenerator, K::Output: PartialOrd
        ensures
            legacy_knots_outcome(self.elements_spec(), knots, r),
    {
        let sorted = match Sorted::new(knots) {
            Ok(sorted) => sorted,
            Err(err) => {
                return Err(BSplineError::from(err));
            },
        };
        match BorderDeletion::new(sorted) {
            Ok(deleted) => Ok(
                BSplineDirector {
                    knots: deleted,
                    elements: self.elements,
                    space: self.space,
                    _phantoms: self._phantoms,
                },
            ),
            Err(err) => Err(BSplineError::from(err)),
        }
    }
}

impl<E, W> BSplineBuilder<Unknown, E, Unknown, W, Legacy> {
    /// Set the knots of the curve; the first and last knot are ignored. Building fails with
    /// [`NotSorted`] if the knots are not sorted and with [`TooFewElements`] if there are less
    /// than two knots.
    pub fn knots<K>(self, knots: K) -> (r: BSplineBuilder<
        BorderDeletion<Sorted<K>>,
        E,
        Unknown,
        W,
        Legacy,
    >) where E: DiscreteGenerator, K: DiscreteGenerator, K::Output: PartialOrd
        ensures
            self.state() matches Err(err) ==> r.state() == Err::<
                BSplineDirector<BorderDeletion<Sorted<K>>, E, Unknown, W, Legacy>,
                BSplineError,
            >(err),
            self.state() matches Ok(d) ==> legacy_knots_outcome(
                d.elements_spec(),
                knots,
                r.state(),
            ),
    {
        let inner = match self.inner {
            Err(err) => Err(err),
            Ok(director) => director.knots(knots),
        };
        BSplineBuilder { inner }
    }
}

impl<E, W, M> BSplineDirector<Unknown, E, Unknown, W, M> {
    /// Use equidistant knots of the type `R`; their number and domain are given next.
    pub fn equidistant<R>(self) -> (r: BSplineDirector<Type<R>, E, Unknown, W, M>)
        ensures
            r.elements_spec() == self.elements_spec(),
    {
        BSplineDirector {
            knots: Type::new(),
            elements: self.elements,
            space: self.space,
            _phantoms: self._phantoms,
        }
    }
}

impl<E, W, M> BSplineBuilder<Unknown, E, Unknown, W, M> {
    /// Use equidistant knots of the type `R`; their number and domain are given next.
    pub fn equidistant<R>(self) -> (r: BSplineBuilder<Type<R>, E, Unknown, W, M>)
        ensures
            self.state() matches Err(err) ==> r.state() == Err::<
                BSplineDirector<Type<R>, E, Unknown, W, M>,
                BSplineError,
            >(err),
            self.state() matches Ok(d) ==> (r.state() matches Ok(n) && n.elements_spec()
                == d.elements_spec()),
    {
        let inner = match self.inner {
            Err(err) => Err(err),
            Ok(director) => Ok(director.equidistant()),
        };
        BSplineBuilder { inner }
    }
}

impl<R, E, W> BSplineDirector<Type<R>, E, Unknown, W, Open> where E: DiscreteGenerator {
    /// Set the degree of the curve; there are `elements - 1 + degree` knots.
    pub fn degree(self, degree: usize) -> (r: BSplineDirector<UnknownDomain<R>, E, Unknown, W, Open>)
        requires
            self.elements_spec().len_spec() >= 1,
            self.elements_spec().len_spec() - 1 + degree <= usize::MAX,
        ensures
            knots_planned(self, r, self.elements_spec().len_spec() - 1 + degree, degree as int),
    {
        let len = self.elements.len();
        BSplineDirector {
            knots: UnknownDomain::new(len - 1 + degree, degree),
            elements: self.elements,
            space: self.space,
            _phantoms: self._phantoms,
        }
    }

    /// Set the number of knots; the degree of the curve is `quantity - elements + 1`.
    pub fn quantity(self, quantity: usize) -> (r: BSplineDirector<
        UnknownDomain<R>,
        E,
        Unknown,
        W,
        Open,
    >)
        requires
            quantity >= self.elements_spec().len_spec(),
            quantity - self.elements_spec().len_spec() + 1 <= usize::MAX,
        ensures
            knots_planned(
                self,
                r,
                quantity as int,
                quantity - self.elements_spec().len_spec() + 1,
            ),
    {
        let len = self.elements.len();
        BSplineDirector {
            knots: UnknownDomain::new(quantity, quantity - len + 1),
            elements: self.elements,
            space: self.space,
            _phantoms: self._phantoms,
        }
    }
}

impl<R, E, W> BSplineBuilder<Type<R>, E, Unknown, W, Open> where E: DiscreteGenerator {
    /// Set the degree of the curve; there are `elements - 1 + degree` knots.
    pub fn degree(self, degree: usize) -> (r: BSplineBuilder<UnknownDomain<R>, E, Unknown, W, Open>)
        requires
            self.state() matches Ok(d) ==> d.elements_spec().len_spec() >= 1
                && d.elements_spec().len_spec() - 1 + degree <= usize::MAX,
        ensures
            self.state() matches Err(err) ==> r.state() == Err::<
                BSplineDirector<UnknownDomain<R>, E, Unknown, W, Open>,
                BSplineError,
            >(err),
            self.state() matches Ok(d) ==> (r.state() matches Ok(n) && knots_planned(
                d,
                n,
                d.elements_spec().len_spec() - 1 + degree,
                degree as int,
            )),
    {
        let inner = match self.inner {
            Err(err) => Err(err),
            Ok(director) => Ok(director.degree(degree)),
        };
        BSplineBuilder { inner }
    }

    /// Set the number of knots; the degree of the curve is `quantity - elements + 1`.
    pub fn quantity(self, quantity: usize) -> (r: BSplineBuilder<
        UnknownDomain<R>,
        E,
        Unknown,
        W,
        Open,
    >)
        requires
            self.state() matches Ok(d) ==> quantity >= d.elements_spec().len_spec() && quantity
                - d.elements_spec().len_spec() + 1 <= usize::MAX,
        ensures
            self.state() matches Err(err) ==> r.state() == Err::<
                BSplineDirector<UnknownDomain<R>, E, Unknown, W, Open>,
                BSplineError,
            >(err),
            self.state() matches Ok(d) ==> (r.state() matches Ok(n) && knots_planned(
                d,
                n,
                quantity as int,
                quantity - d.elements_spec().len_spec() + 1,
            )),
    {
        let inner = match self.inner {
            Err(err) => Err(err),
            Ok(director) => Ok(director.quantity(quantity)),
        };
        BSplineBuilder { inner }
    }
}

impl<R, E, W> BSplineDirector<Type<R>, E, Unknown, W, Clamped> where E: DiscreteGenerator {
    /// Set the degree of the curve; there are `elements - degree + 1` knots.
    pub fn degree(self, degree: usize) -> (r: BSplineDirector<
        UnknownDomain<R>,
        E,
        Unknown,
        W,
        Clamped,
    >)
        requires
            degree <= self.elements_spec().len_spec(),
            self.elements_spec().len_spec() - degree + 1 <= usize::MAX,
        ensures
            knots_planned(self, r, self.elements_spec().len_spec() - degree + 1, degree as int),
    {
        let len = self.elements.len();
        BSplineDirector {
            knots: UnknownDomain::new(len - degree + 1, degree),
            elements: self.elements,
            space: self.space,
            _phantoms: self._phantoms,
        }
    }

    /// Set the number of knots; the degree of the curve is `elements - quantity + 1`.
    pub fn quantity(self, quantity: usize) -> (r: BSplineDirector<
        UnknownDomain<R>,
        E,
        Unknown,
        W,
        Clamped,
    >)
        requires
            quantity <= self.elements_spec().len_spec(),
            self.elements_spec().len_spec() - quantity + 1 <= usize::MAX,
        ensures
            knots_planned(
                self,
                r,
                quantity as int,
                self.elements_spec().len_spec() - quantity + 1,
            ),
    {
        let len = self.elements.len();
        BSplineDirector {
            knots: UnknownDomain::new(quantity, len - quantity + 1),
            elements: self.elements,
            space: self.space,
            _phantoms: self._phantoms,
        }
    }
}

impl<R, E, W> BSplineBuilder<Type<R>, E, Unknown, W, Clamped> where E: DiscreteGenerator {
    /// Set the degree of the curve; there are `elements - degree + 1` knots.
    pub fn degree(self, degree: usize) -> (r: BSplineBuilder<
        UnknownDomain<R>,
        E,
        Unknown,
        W,
        Clamped,
    >)
        requires
            self.state() matches Ok(d) ==> degree <= d.elements_spec().len_spec()
                && d.elements_spec().len_spec() - degree + 1 <= usize::MAX,
        ensures
            self.state() matches Err(err) ==> r.state() == Err::<
                BSplineDirector<UnknownDomain<R>, E, Unknown, W, Clamped>,
                BSplineError,
            >(err),
            self.state() matches Ok(d) ==> (r.state() matches Ok(n) && knots_planned(
                d,
                n,
                d.elements_spec().len_spec() - degree + 1,
                degree as int,
            )),
    {
        let inner = match self.inner {
            Err(err) => Err(err),
            Ok(director) => Ok(director.degree(degree)),
        };
        BSplineBuilder { inner }
    }

    /// Set the number of knots; the degree of the curve is `elements - quantity + 1`.
    pub fn quantity(self, quantity: usize) -> (r: BSplineBuilder<
        UnknownDomain<R>,
        E,
        Unknown,
        W,
        Clamped,
    >)
        requires
            self.state() matches Ok(d) ==> quantity <= d.elements_spec().len_spec()
                && d.elements_spec().len_spec() - quantity + 1 <= usize::MAX,
        ensures
            self.state() matches Err(err) ==> r.state() == Err::<
                BSplineDirector<UnknownDomain<R>, E, Unknown, W, Clamped>,
                BSplineError,
            >(err),
            self.state() matches Ok(d) ==> (r.state() matches Ok(n) && knots_planned(
                d,
                n,
                quantity as int,
                d.elements_spec().len_spec() - quantity + 1,
            )),
    {
        let inner = match self.inner {
            Err(err) => Err(err),
            Ok(director) => Ok(director.quantity(quantity)),
        };
        BSplineBuilder { inner }
    }
}

impl<R, E, W> BSplineDirector<UnknownDomain<R>, E, Unknown, W, Open> where
    E: DiscreteGenerator,
    R: Scalar,
 {
    /// Use equidistant knots from `start` to `end`.
    pub fn domain(self, start: R, end: R) -> (r: BSplineDirector<Equidistant<R>, E, Unknown, W, Open>)
        requires
            self.knots_spec().len_spec() >= 1,
            scalar_ops_defined::<R>(),
        ensures
            r.elements_spec() == self.elements_spec(),
            spans(r.knots_spec(), self.knots_spec().len_spec() as nat, start, end),
    {
        let len = self.knots.len();
        BSplineDirector {
            knots: Equidistant::new(len, start, end),
            elements: self.elements,
            space: self.space,
            _phantoms: self._phantoms,
        }
    }

    /// Use equidistant knots from 0 to 1.
    pub fn normalized(self) -> (r: BSplineDirector<Equidistant<R>, E, Unknown, W, Open>)
        requires
            self.knots_spec().len_spec() >= 1,
            scalar_ops_defined::<R>(),
        ensures
            r.elements_spec() == self.elements_spec(),
            r.knots_spec().length() == self.knots_spec().len_spec(),
            scalar_ops_obeyed::<R>() ==> r.knots_spec().offset() == zero::<R>()
                && r.knots_spec().step_spec() == one::<R>().div_spec(
                scalar_of::<R>((self.knots_spec().len_spec() - 1) as nat),
            ),
    {
        let len = self.knots.len();
        BSplineDirector {
            knots: Equidistant::normalized(len),
            elements: self.elements,
            space: self.space,
            _phantoms: self._phantoms,
        }
    }

    /// Use equidistant knots starting at `start`, `step` apart.
    pub fn distance(self, start: R, step: R) -> (r: BSplineDirector<Equidistant<R>, E, Unknown, W, Open>)
        requires
            scalar_ops_defined::<R>(),
        ensures
            r.elements_spec() == self.elements_spec(),
            r.knots_spec().length() == self.knots_spec().len_spec(),
            r.knots_spec().offset() == start,
            r.knots_spec().step_spec() == step,
    {
        let len = self.knots.len();
        BSplineDirector {
            knots: Equidistant::step(len, start, step),
            elements: self.elements,
            space: self.space,
            _phantoms: self._phantoms,
        }
    }
}

impl<R, E, W> BSplineBuilder<UnknownDomain<R>, E, Unknown, W, Open> where
    E: DiscreteGenerator,
    R: Scalar,
 {
    /// Use equidistant knots from `start` to `end`.
    pub fn domain(self, start: R, end: R) -> (r: BSplineBuilder<Equidistant<R>, E, Unknown, W, Open>)
        requires
            self.state() matches Ok(d) ==> d.knots_spec().len_spec() >= 1,
            scalar_ops_defined::<R>(),
        ensures
            self.state() matches Err(err) ==> r.state() == Err::<
                BSplineDirector<Equidistant<R>, E, Unknown, W, Open>,
                BSplineError,
            >(err),
            self.state() matches Ok(d) ==> (r.state() matches Ok(n) && n.elements_spec()
                == d.elements_spec() && spans(
                n.knots_spec(),
                d.knots_spec().len_spec() as nat,
                start,
                end,
            )),
    {
        let inner = match self.inner {
            Err(err) => Err(err),
            Ok(director) => Ok(director.domain(start, end)),
        };
        BSplineBuilder { inner }
    }

    /// Use equidistant knots from 0 to 1.
    pub fn normalized(self) -> (r: BSplineBuilder<Equidistant<R>, E, Unknown, W, Open>)
        requires
            self.state() matches Ok(d) ==> d.knots_spec().len_spec() >= 1,
            scalar_ops_defined::<R>(),
        ensures
            self.state() matches Err(err) ==> r.state() == Err::<
                BSplineDirector<Equidistant<R>, E, Unknown, W, Open>,
                BSplineError,
            >(err),
            self.state() matches Ok(d) ==> (r.state() matches Ok(n) && n.elements_spec()
                == d.elements_spec() && n.knots_spec().length()
                == d.knots_spec().len_spec() && (scalar_ops_obeyed::<R>() ==> n.knots_spec().offset()
                == zero::<R>() && n.knots_spec().step_spec() == one::<R>().div_spec(
                scalar_of::<R>((d.knots_spec().len_spec() - 1) as nat),
            ))),
    {
        let inner = match self.inner {
            Err(err) => Err(err),
            Ok(director) => Ok(director.normalized()),
        };
        BSplineBuilder { inner }
    }

    /// Use equidistant knots starting at `start`, `step` apart.
    pub fn distance(self, start: R, step: R) -> (r: BSplineBuilder<Equidistant<R>, E, Unknown, W, Open>)
        requires
            scalar_ops_defined::<R>(),
        ensures
            self.state() matches Err(err) ==> r.state() == Err::<
                BSplineDirector<Equidistant<R>, E, Unknown, W, Open>,
                BSplineError,
            >(err),
            self.state() matches Ok(d) ==> (r.state() matches Ok(n) && n.elements_spec()
                == d.elements_spec() && n.knots_spec().length()
                == d.knots_spec().len_spec() && n.knots_spec().offset() == start
                && n.knots_spec().step_spec() == step),
    {
        let inner = match self.inner {
            Err(err) => Err(err),
            Ok(director) => Ok(director.distance(start, step)),
        };
        BSplineBuilder { inner }
    }
}

impl<R, E, W> BSplineDirector<UnknownDomain<R>, E, Unknown, W, Clamped> where
    E: DiscreteGenerator,
    R: Scalar,
 {
    /// Use equidistant knots from `start` to `end`, the first and last repeated `degree - 1` more times.
    pub fn domain(self, start: R, end: R) -> (r: BSplineDirector<BorderBuffer<Equidistant<R>>, E, Unknown, W, Clamped>)
        requires
            self.knots_spec().len_spec() >= 1,
            self.knots_spec().deg_spec() >= 1,
            self.knots_spec().len_spec() + 2 * (self.knots_spec().deg_spec() - 1) <= usize::MAX,
            scalar_ops_defined::<R>(),
        ensures
            r.elements_spec() == self.elements_spec(),
            r.knots_spec().n() == self.knots_spec().deg_spec() - 1,
            spans(r.knots_spec().inner(), self.knots_spec().len_spec() as nat, start, end),
    {
        let len = self.knots.len();
        let deg = self.knots.deg();
        BSplineDirector {
            knots: BorderBuffer::new(Equidistant::new(len, start, end), deg - 1),
            elements: self.elements,
            space: self.space,
            _phantoms: self._phantoms,
        }
    }

    /// Use equidistant knots from 0 to 1, the first and last repeated `degree - 1` more times.
    pub fn normalized(self) -> (r: BSplineDirector<BorderBuffer<Equidistant<R>>, E, Unknown, W, Clamped>)
        requires
            self.knots_spec().len_spec() >= 1,
            self.knots_spec().deg_spec() >= 1,
            self.knots_spec().len_spec() + 2 * (self.knots_spec().deg_spec() - 1) <= usize::MAX,
            scalar_ops_defined::<R>(),
        ensures
            r.elements_spec() == self.elements_spec(),
            r.knots_spec().n() == self.knots_spec().deg_spec() - 1,
            r.knots_spec().inner().length() == self.knots_spec().len_spec(),
            scalar_ops_obeyed::<R>() ==> r.knots_spec().inner().offset() == zero::<R>()
                && r.knots_spec().inner().step_spec() == one::<R>().div_spec(
                scalar_of::<R>((self.knots_spec().len_spec() - 1) as nat),
            ),
    {
        let len = self.knots.len();
        let deg = self.knots.deg();
        BSplineDirector {
            knots: BorderBuffer::new(Equidistant::normalized(len), deg - 1),
            elements: self.elements,
            space: self.space,
            _phantoms: self._phantoms,
        }
    }

    /// Use equidistant knots starting at `start`, `step` apart, the first and last repeated `degree - 1` more times.
    pub fn distance(self, start: R, step: R) -> (r: BSplineDirector<BorderBuffer<Equidistant<R>>, E, Unknown, W, Clamped>)
        requires
            self.knots_spec().deg_spec() >= 1,
            self.knots_spec().len_spec() + 2 * (self.knots_spec().deg_spec() - 1) <= usize::MAX,
            scalar_ops_defined::<R>(),
        ensures
            r.elements_spec() == self.elements_spec(),
            r.knots_spec().n() == self.knots_spec().deg_spec() - 1,
            r.knots_spec().inner().length() == self.knots_spec().len_spec(),
            r.knots_spec().inner().offset() == start,
            r.knots_spec().inner().step_spec() == step,
    {
        let len = self.knots.len();
        let deg = self.knots.deg();
        BSplineDirector {
            knots: BorderBuffer::new(Equidistant::step(len, start, step), deg - 1),
            elements: self.elements,
            space: self.space,
            _phantoms: self._phantoms,
        }
    }
}

impl<R, E, W> BSplineBuilder<UnknownDomain<R>, E, Unknown, W, Clamped> where
    E: DiscreteGenerator,
    R: Scalar,
 {
    /// Use equidistant knots from `start` to `end`, the first and last repeated `degree - 1` more times.
    pub fn domain(self, start: R, end: R) -> (r: BSplineBuilder<BorderBuffer<Equidistant<R>>, E, Unknown, W, Clamped>)
        requires
            self.state() matches Ok(d) ==> d.knots_spec().len_spec() >= 1 && d.knots_spec().deg_spec() >= 1 && d.knots_spec().len_spec() + 2 * (d.knots_spec().deg_spec() - 1) <= usize::MAX,
            scalar_ops_defined::<R>(),
        ensures
            self.state() matches Err(err) ==> r.state() == Err::<
                BSplineDirector<BorderBuffer<Equidistant<R>>, E, Unknown, W, Clamped>,
                BSplineError,
            >(err),
            self.state() matches Ok(d) ==> (r.state() matches Ok(n) && n.elements_spec()
                == d.elements_spec() && n.knots_spec().n() == d.knots_spec().deg_spec() - 1 && spans(
                n.knots_spec().inner(),
                d.knots_spec().len_spec() as nat,
                start,
                end,
            )),
    {
        let inner = match self.inner {
            Err(err) => Err(err),
            Ok(director) => Ok(director.domain(start, end)),
        };
        BSplineBuilder { inner }
    }

    /// Use equidistant knots from 0 to 1, the first and last repeated `degree - 1` more times.
    pub fn normalized(self) -> (r: BSplineBuilder<BorderBuffer<Equidistant<R>>, E, Unknown, W, Clamped>)
        requires
            self.state() matches Ok(d) ==> d.knots_spec().len_spec() >= 1 && d.knots_spec().deg_spec() >= 1 && d.knots_spec().len_spec() + 2 * (d.knots_spec().deg_spec() - 1) <= usize::MAX,
            scalar_ops_defined::<R>(),
        ensures
            self.state() matches Err(err) ==> r.state() == Err::<
                BSplineDirector<BorderBuffer<Equidistant<R>>, E, Unknown, W, Clamped>,
                BSplineError,
            >(err),
            self.state() matches Ok(d) ==> (r.state() matches Ok(n) && n.elements_spec()
                == d.elements_spec() && n.knots_spec().n() == d.knots_spec().deg_spec() - 1 && n.knots_spec().inner().length()
                == d.knots_spec().len_spec() && (scalar_ops_obeyed::<R>() ==> n.knots_spec().inner().offset()
                == zero::<R>() && n.knots_spec().inner().step_spec() == one::<R>().div_spec(
                scalar_of::<R>((d.knots_spec().len_spec() - 1) as nat),
            ))),
    {
        let inner = match self.inner {
            Err(err) => Err(err),
            Ok(director) => Ok(director.normalized()),
        };
        BSplineBuilder { inner }
    }

    /// Use equidistant knots starting at `start`, `step` apart, the first and last repeated `degree - 1` more times.
    pub fn distance(self, start: R, step: R) -> (r: BSplineBuilder<BorderBuffer<Equidistant<R>>, E, Unknown, W, Clamped>)
        requires
            self.state() matches Ok(d) ==> d.knots_spec().deg_spec() >= 1 && d.knots_spec().len_spec() + 2 * (d.knots_spec().deg_spec() - 1) <= usize::MAX,
            scalar_ops_defined::<R>(),
        ensures
            self.state() matches Err(err) ==> r.state() == Err::<
                BSplineDirector<BorderBuffer<Equidistant<R>>, E, Unknown, W, Clamped>,
                BSplineError,
            >(err),
            self.state() matches Ok(d) ==> (r.state() matches Ok(n) && n.elements_spec()
                == d.elements_spec() && n.knots_spec().n() == d.knots_spec().deg_spec() - 1 && n.knots_spec().inner().length()
                == d.knots_spec().len_spec() && n.knots_spec().inner().offset() == start
                && n.knots_spec().inner().step_spec() == step),
    {
        let inner = match self.inner {
            Err(err) => Err(err),
            Ok(director) => Ok(director.distance(start, step)),
        };
        BSplineBuilder { inner }
    }
}

impl<K, E, W, M> BSplineDirector<K, E, Unknown, W, M> where
    E: DiscreteGenerator,
    K: DiscreteGenerator,
 {
    /// Use a workspace allocated at run time, of size `knots - elements + 2`.
    pub fn dynamic(self) -> (r: BSplineDirector<K, E, DynSpace<E::Output>, W, M>)
        requires
            self.knots_spec().len_spec() >= self.elements_spec().len_spec(),
            self.knots_spec().len_spec() - self.elements_spec().len_spec() + 2 <= usize::MAX,
        ensures
            r.elements_spec() == self.elements_spec(),
            r.knots_spec() == self.knots_spec(),
            r.space_spec().len_spec() == self.knots_spec().len_spec()
                - self.elements_spec().len_spec() + 2,
    {
        let k = self.knots.len();
        let e = self.elements.len();
        BSplineDirector {
            space: DynSpace::new(k - e + 2),
            knots: self.knots,
            elements: self.elements,
            _phantoms: self._phantoms,
        }
    }

    /// Use a workspace of a size known at compile time; it has to be bigger than the degree.
    pub fn constant<const N: usize>(self) -> (r: BSplineDirector<K, E, ConstSpace<E::Output, N>, W, M>)
        ensures
            r.elements_spec() == self.elements_spec(),
            r.knots_spec() == self.knots_spec(),
    {
        BSplineDirector {
            knots: self.knots,
            space: ConstSpace::new(),
            elements: self.elements,
            _phantoms: self._phantoms,
        }
    }

    /// Use the given workspace; it has to be bigger than the degree.
    pub fn workspace<S>(self, space: S) -> (r: BSplineDirector<K, E, S, W, M>)
        where S: Space<E::Output>
        ensures
            r.elements_spec() == self.elements_spec(),
            r.knots_spec() == self.knots_spec(),
            r.space_spec() == space,
    {
        BSplineDirector {
            knots: self.knots,
            space,
            elements: self.elements,
            _phantoms: self._phantoms,
        }
    }
}

impl<K, E, W, M> BSplineBuilder<K, E, Unknown, W, M> where
    E: DiscreteGenerator,
    K: DiscreteGenerator,
 {
    /// Use a workspace allocated at run time, of size `knots - elements + 2`.
    pub fn dynamic(self) -> (r: BSplineBuilder<K, E, DynSpace<E::Output>, W, M>)
        requires
            self.state() matches Ok(d) ==> d.knots_spec().len_spec()
                >= d.elements_spec().len_spec() && d.knots_spec().len_spec()
                - d.elements_spec().len_spec() + 2 <= usize::MAX,
        ensures
            self.state() matches Err(err) ==> r.state() == Err::<
                BSplineDirector<K, E, DynSpace<E::Output>, W, M>,
                BSplineError,
            >(err),
            self.state() matches Ok(d) ==> (r.state() matches Ok(n) && n.elements_spec()
                == d.elements_spec() && n.knots_spec() == d.knots_spec()
                && n.space_spec().len_spec() == d.knots_spec().len_spec()
                - d.elements_spec().len_spec() + 2),
    {
        let inner = match self.inner {
            Err(err) => Err(err),
            Ok(director) => Ok(director.dynamic()),
        };
        BSplineBuilder { inner }
    }

    /// Use a workspace of a size known at compile time; it has to be bigger than the degree.
    pub fn constant<const N: usize>(self) -> (r: BSplineBuilder<K, E, ConstSpace<E::Output, N>, W, M>)
        ensures
            self.state() matches Err(err) ==> r.state() == Err::<
                BSplineDirector<K, E, ConstSpace<E::Output, N>, W, M>,
                BSplineError,
            >(err),
            self.state() matches Ok(d) ==> (r.state() matches Ok(n) && n.elements_spec()
                == d.elements_spec() && n.knots_spec() == d.knots_spec()),
    {
        let inner = match self.inner {
            Err(err) => Err(err),
            Ok(director) => Ok(director.constant()),
        };
        BSplineBuilder { inner }
    }

    /// Use the given workspace; it has to be bigger than the degree.
    pub fn workspace<S>(self, space: S) -> (r: BSplineBuilder<K, E, S, W, M>)
        where S: Space<E::Output>
        ensures
            self.state() matches Err(err) ==> r.state() == Err::<
                BSplineDirector<K, E, S, W, M>,
                BSplineError,
            >(err),
            self.state() matches Ok(d) ==> (r.state() matches Ok(n) && n.elements_spec()
                == d.elements_spec() && n.knots_spec() == d.knots_spec() && n.space_spec()
                == space),
    {
        let inner = match self.inner {
            Err(err) => Err(err),
            Ok(director) => Ok(director.workspace(space)),
        };
        BSplineBuilder { inner }
    }
}

impl<K, E, S, M> BSplineDirector<K, E, S, WithoutWeight, M> where
    K: SortedGenerator,
    E: DiscreteGenerator,
    S: Space<E::Output>,
 {
    /// Build the bspline curve.
    ///
    /// # Errors
    ///
    /// The errors of [`BSpline::new`].
    pub fn build(self) -> (r: Result<BSpline<K, E, S>, BSplineError>)
        requires
            self.elements_spec().len_spec() <= isize::MAX,
            self.knots_spec().len_spec() <= isize::MAX,
        ensures
            new_outcome(r, self.elements_spec(), self.knots_spec(), self.space_spec()),
    {
        BSpline::new(self.elements, self.knots, self.space)
    }
}

impl<K, E, S, M> BSplineBuilder<K, E, S, WithoutWeight, M> where
    K: SortedGenerator,
    E: DiscreteGenerator,
    S: Space<E::Output>,
 {
    /// Build the bspline curve, or return the first error that occured.
    pub fn build(self) -> (r: Result<BSpline<K, E, S>, BSplineError>)
        requires
            self.state() matches Ok(d) ==> d.elements_spec().len_spec() <= isize::MAX
                && d.knots_spec().len_spec() <= isize::MAX,
        ensures
            self.state() matches Err(err) ==> r == Err::<BSpline<K, E, S>, BSplineError>(err),
            self.state() matches Ok(d) ==> new_outcome(
                r,
                d.elements_spec(),
                d.knots_spec(),
                d.space_spec(),
            ),
    {
        match self.inner {
            Err(err) => Err(err),
            Ok(director) => director.build(),
        }
    }
}

/// What building a weighted bspline of the given elements, knots and workspace results in:
/// the same as for the bspline itself, wrapped such that it projects its output.
pub open spec fn weighted_outcome<K, G, S>(
    r: Result<Weighted<BSpline<K, Weights<G>, S>>, BSplineError>,
    elements: Weights<G>,
    knots: K,
    space: S,
) -> bool where
    G: DiscreteGenerator,
    G::Output: IntoWeight,
    K: SortedGenerator,
    S: Space<Homogeneous<<G::Output as IntoWeight>::Element, <G::Output as IntoWeight>::Weight>>,
 {
    new_outcome(
        match r {
            Ok(w) => Ok(w.wrapped()),
            Err(e) => Err(e),
        },
        elements,
        knots,
        space,
    )
}

impl<K, G, S, M> BSplineDirector<K, Weights<G>, S, WithWeight, M> where
    G: DiscreteGenerator,
    G::Output: IntoWeight,
    K: SortedGenerator,
    S: Space<Homogeneous<<G::Output as IntoWeight>::Element, <G::Output as IntoWeight>::Weight>>,
 {
    /// Build the weighted bspline curve.
    ///
    /// # Errors
    ///
    /// The errors of [`BSpline::new`].
    pub fn build(self) -> (r: Result<Weighted<BSpline<K, Weights<G>, S>>, BSplineError>)
        requires
            self.elements_spec().len_spec() <= isize::MAX,
            self.knots_spec().len_spec() <= isize::MAX,
        ensures
            weighted_outcome(r, self.elements_spec(), self.knots_spec(), self.space_spec()),
    {
        match BSpline::new(self.elements, self.knots, self.space) {
            Ok(b) => Ok(Weighted::new(b)),
            Err(err) => Err(err),
        }
    }
}

impl<K, G, S, M> BSplineBuilder<K, Weights<G>, S, WithWeight, M> where
    G: DiscreteGenerator,
    G::Output: IntoWeight,
    K: SortedGenerator,
    S: Space<Homogeneous<<G::Output as IntoWeight>::Element, <G::Output as IntoWeight>::Weight>>,
 {
    /// Build the weighted bspline curve, or return the first error that occured.
    pub fn build(self) -> (r: Result<Weighted<BSpline<K, Weights<G>, S>>, BSplineError>)
        requires
            self.state() matches Ok(d) ==> d.elements_spec().len_spec() <= isize::MAX
                && d.knots_spec().len_spec() <= isize::MAX,
        ensures
            self.state() matches Err(err) ==> r == Err::<
                Weighted<BSpline<K, Weights<G>, S>>,
                BSplineError,
            >(err),
            self.state() matches Ok(d) ==> weighted_outcome(
                r,
                d.elements_spec(),
                d.knots_spec(),
                d.space_spec(),
            ),
    {
        match self.inner {
            Err(err) => Err(err),
            Ok(director) => director.build(),
        }
    }
}

impl BSpline<Unknown, Unknown, Unknown> {
    /// Get a builder for bspline curves, in open mode.
    pub fn builder() -> (r: BSplineBuilder<Unknown, Unknown, Unknown, Unknown, Open>)
        ensures
            r.state() is Ok,
    {
        BSplineBuilder::new()
    }
}

/// In clamped mode `e` elements and `k` knots give `2e - k` knots to the curve, the first
/// and last repeated, such that the degree `knots - elements + 1` of the curve is
/// `e - k + 1`.
pub proof fn law_clamped_degree<K, E, W>(
    elements: E,
    knots: K,
    r: Result<BSplineDirector<BorderBuffer<Sorted<K>>, E, Unknown, W, Clamped>, BSplineError>,
) where E: DiscreteGenerator, K: DiscreteGenerator, K::Output: PartialOrd
    requires
        clamped_knots_outcome(elements, knots, r),
        knots.len_spec() >= 1,
    ensures
        r matches Ok(d) ==> d.knots_spec().len_spec() == 2 * elements.len_spec()
            - knots.len_spec() && d.knots_spec().len_spec() - elements.len_spec() + 1
            == elements.len_spec() - knots.len_spec() + 1,
{
}

/// In legacy mode `k` knots give `k - 2` knots to the curve, such that the degree
/// `knots - elements + 1` of the curve is `k - e - 1` for `e` elements.
pub proof fn law_legacy_degree<K, E, W>(
    elements: E,
    knots: K,
    r: Result<BSplineDirector<BorderDeletion<Sorted<K>>, E, Unknown, W, Legacy>, BSplineError>,
) where E: DiscreteGenerator, K: DiscreteGenerator, K::Output: PartialOrd
    requires
        legacy_knots_outcome(elements, knots, r),
    ensures
        r matches Ok(d) ==> d.knots_spec().len_spec() == knots.len_spec() - 2
            && d.knots_spec().len_spec() - elements.len_spec() + 1 == knots.len_spec()
            - elements.len_spec() - 1,
{
}

/// In open mode, asking for `elements - 1 + degree` equidistant knots plans what asking for the
/// degree does, and whichever domain is then given to those knots, the curve built from them
/// has exactly that degree.
pub proof fn law_open_knots_give_degree<R, E, W, S>(
    d: BSplineDirector<Type<R>, E, Unknown, W, Open>,
    degree: usize,
    by_degree: BSplineDirector<UnknownDomain<R>, E, Unknown, W, Open>,
    quantity: usize,
    by_quantity: BSplineDirector<UnknownDomain<R>, E, Unknown, W, Open>,
    knots: Equidistant<R>,
    space: S,
    curve: Result<BSpline<Equidistant<R>, E, S>, BSplineError>,
) where E: DiscreteGenerator, R: Scalar, S: Space<E::Output>
    requires
        d.elements_spec().len_spec() >= 1,
        knots_planned(d, by_degree, d.elements_spec().len_spec() - 1 + degree, degree as int),
        quantity == d.elements_spec().len_spec() - 1 + degree,
        knots_planned(d, by_quantity, quantity as int, quantity - d.elements_spec().len_spec() + 1),
        knots.length() == by_degree.knots_spec().len_spec(),
        new_outcome(curve, by_degree.elements_spec(), knots, space),
    ensures
        by_quantity.knots_spec().len_spec() == by_degree.knots_spec().len_spec(),
        by_quantity.knots_spec().deg_spec() == by_degree.knots_spec().deg_spec(),
        by_quantity.elements_spec() == by_degree.elements_spec(),
        curve matches Ok(b) ==> b.degree() == degree,
{
}

/// In clamped mode, asking for `elements - degree + 1` equidistant knots plans what asking for
/// the degree does, and whichever domain is then given to those knots (the first and last
/// repeated `degree - 1` more times), the curve built from them has exactly that degree.
pub proof fn law_clamped_knots_give_degree<R, E, W, S>(
    d: BSplineDirector<Type<R>, E, Unknown, W, Clamped>,
    degree: usize,
    by_degree: BSplineDirector<UnknownDomain<R>, E, Unknown, W, Clamped>,
    quantity: usize,
    by_quantity: BSplineDirector<UnknownDomain<R>, E, Unknown, W, Clamped>,
    knots: BorderBuffer<Equidistant<R>>,
    space: S,
    curve: Result<BSpline<BorderBuffer<Equidistant<R>>, E, S>, BSplineError>,
) where E: DiscreteGenerator, R: Scalar, S: Space<E::Output>
    requires
        1 <= degree <= d.elements_spec().len_spec(),
        knots_planned(d, by_degree, d.elements_spec().len_spec() - degree + 1, degree as int),
        quantity == d.elements_spec().len_spec() - degree + 1,
        knots_planned(d, by_quantity, quantity as int, d.elements_spec().len_spec() - quantity + 1),
        knots.n() == by_degree.knots_spec().deg_spec() - 1,
        knots.inner().length() == by_degree.knots_spec().len_spec(),
        new_outcome(curve, by_degree.elements_spec(), knots, space),
    ensures
        by_quantity.knots_spec().len_spec() == by_degree.knots_spec().len_spec(),
        by_quantity.knots_spec().deg_spec() == by_degree.knots_spec().deg_spec(),
        by_quantity.elements_spec() == by_degree.elements_spec(),
        knots.len_spec() == d.elements_spec().len_spec() + degree - 1,
        curve matches Ok(b) ==> b.degree() == degree,
{
}

} // verus!
