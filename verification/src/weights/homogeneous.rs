//! Homogeneous elements: an element together with a weight (its rational part).
//!
//! A weighted element `e` with weight `w` is stored as `(e * w, w)`; projecting divides by the
//! weight again. A weight of zero describes a point at infinity in the direction of the element.
use vstd::prelude::*;
use vstd::std_specs::ops::{
    AddSpec, SubSpec, MulSpec, DivSpec, AddSpecImpl, SubSpecImpl, MulSpecImpl, DivSpecImpl,
};
use vstd::std_specs::convert::FromSpec;
use vstd::std_specs::cmp::PartialEqSpec;
use core::ops::{Add, Sub, Mul, Div};
use crate::scalar::{Scalar, one, zero};

verus! {

/// Wrapper for elements to achieve weighted and rational curves.
#[derive(PartialEq, Clone, Copy, Hash, Default, Debug)]
pub struct Homogeneous<E, R> {
    element: E,
    rational: R,
}

impl<E, R> Homogeneous<E, R> {
    /// The element, already multiplied with the weight.
    pub closed spec fn element(&self) -> E {
        self.element
    }

    /// The weight.
    pub closed spec fn rational(&self) -> R {
        self.rational
    }

    /// The homogeneous element with the given parts.
    pub closed spec fn from_parts(element: E, rational: R) -> Self {
        Homogeneous { element, rational }
    }

    /// The parts of a homogeneous element built from parts are these parts.
    pub proof fn lemma_from_parts(element: E, rational: R)
        ensures
            Self::from_parts(element, rational).element() == element,
            Self::from_parts(element, rational).rational() == rational,
    {
    }

    /// A homogeneous element is given by its parts.
    pub proof fn lemma_parts(h: Self)
        ensures
            Self::from_parts(h.element(), h.rational()) == h,
    {
    }
}

impl<E, R: Scalar> Homogeneous<E, R> {
    /// Create a homogeneous element with weight one.
    pub fn new(element: E) -> (r: Self)
        ensures
            r.element() == element,
            <R as FromSpec<u8>>::obeys_from_spec() ==> r.rational() == one::<R>(),
    {
        Homogeneous { element, rational: R::from(1u8) }
    }

    /// Create a point at infinity in the given direction (weight zero).
    pub fn infinity(direction: E) -> (r: Self)
        ensures
            r.element() == direction,
            <R as FromSpec<u8>>::obeys_from_spec() ==> r.rational() == zero::<R>(),
    {
        Homogeneous { element: direction, rational: R::from(0u8) }
    }

    /// Returns true if the element lies at infinity (its weight is zero).
    pub fn is_infinite(&self) -> (r: bool)
        ensures
            <R as FromSpec<u8>>::obeys_from_spec() && R::obeys_eq_spec() ==> r
                == self.rational().eq_spec(&zero::<R>()),
    {
        self.rational == R::from(0u8)
    }
}

impl<E: Copy, R> Homogeneous<E, R> {
    /// The direction of a point at infinity, that is the stored element.
    pub fn direction(&self) -> (r: E)
        ensures
            r == self.element(),
    {
        self.element
    }
}

impl<E, R> Homogeneous<E, R> where E: Mul<R, Output = E>, R: Scalar {
    /// Create a weighted element, or `None` if the weight is zero.
    pub fn weighted(element: E, weight: R) -> (r: Option<Self>)
        requires
            element.mul_req(weight),
        ensures
            <R as FromSpec<u8>>::obeys_from_spec() && R::obeys_eq_spec() ==> (r is None
                <==> weight.eq_spec(&zero::<R>())),
            r matches Some(h) ==> h.rational() == weight && (E::obeys_mul_spec() ==> h.element()
                == element.mul_spec(weight)),
    {
        if weight == R::from(0u8) {
            return None;
        }
        Some(Homogeneous { element: element * weight, rational: weight })
    }

    /// Create a weighted element without checking that the weight is not zero.
    pub fn weighted_unchecked(element: E, weight: R) -> (r: Self)
        requires
            element.mul_req(weight),
        ensures
            r.rational() == weight,
            E::obeys_mul_spec() ==> r.element() == element.mul_spec(weight),
    {
        Homogeneous { element: element * weight, rational: weight }
    }

    /// Create a weighted element, or a point at infinity in the direction of the element if
    /// the weight is zero.
    pub fn weighted_or_infinite(element: E, weight: R) -> (r: Self)
        requires
            element.mul_req(weight),
        ensures
            <R as FromSpec<u8>>::obeys_from_spec() && R::obeys_eq_spec() ==> {
                if weight.eq_spec(&zero::<R>()) {
                    r.element() == element && r.rational() == zero::<R>()
                } else {
                    r.rational() == weight && (E::obeys_mul_spec() ==> r.element()
                        == element.mul_spec(weight))
                }
            },
    {
        if weight == R::from(0u8) {
            return Homogeneous { element, rational: R::from(0u8) };
        }
        Homogeneous { element: element * weight, rational: weight }
    }
}

/// The element divided by its weight.
pub open spec fn project_spec<E, R>(h: Homogeneous<E, R>) -> E where E: Div<R, Output = E> {
    h.element().div_spec(h.rational())
}

impl<E, R> Homogeneous<E, R> where E: Div<R, Output = E> {
    /// Project the homogeneous element back: the element divided by its weight.
    pub fn project(self) -> (r: E)
        requires
            self.element().div_req(self.rational()),
        ensures
            E::obeys_div_spec() ==> r == project_spec(self),
    {
        self.element / self.rational
    }
}

impl<E, R> Add for Homogeneous<E, R> where E: Add<Output = E>, R: Add<Output = R> {
    type Output = Homogeneous<E, R>;

    fn add(self, rhs: Homogeneous<E, R>) -> (r: Self::Output) {
        Homogeneous { element: self.element + rhs.element, rational: self.rational + rhs.rational }
    }
}

impl<E, R> AddSpecImpl for Homogeneous<E, R> where E: Add<Output = E>, R: Add<Output = R> {
    open spec fn obeys_add_spec() -> bool {
        E::obeys_add_spec() && R::obeys_add_spec()
    }

    open spec fn add_req(self, rhs: Self) -> bool {
        self.element().add_req(rhs.element()) && self.rational().add_req(rhs.rational())
    }

    open spec fn add_spec(self, rhs: Self) -> Self {
        Self::from_parts(
            self.element().add_spec(rhs.element()),
            self.rational().add_spec(rhs.rational()),
        )
    }
}

impl<E, R> Sub for Homogeneous<E, R> where E: Sub<Output = E>, R: Sub<Output = R> {
    type Output = Homogeneous<E, R>;

    fn sub(self, rhs: Homogeneous<E, R>) -> (r: Self::Output) {
        Homogeneous { element: self.element - rhs.element, rational: self.rational - rhs.rational }
    }
}

impl<E, R> SubSpecImpl for Homogeneous<E, R> where E: Sub<Output = E>, R: Sub<Output = R> {
    open spec fn obeys_sub_spec() -> bool {
        E::obeys_sub_spec() && R::obeys_sub_spec()
    }

    open spec fn sub_req(self, rhs: Self) -> bool {
        self.element().sub_req(rhs.element()) && self.rational().sub_req(rhs.rational())
    }

    open spec fn sub_spec(self, rhs: Self) -> Self {
        Self::from_parts(
            self.element().sub_spec(rhs.element()),
            self.rational().sub_spec(rhs.rational()),
        )
    }
}

impl<E, R> Mul for Homogeneous<E, R> where E: Mul<Output = E>, R: Mul<Output = R> {
    type Output = Homogeneous<E, R>;

    fn mul(self, rhs: Homogeneous<E, R>) -> (r: Self::Output) {
        Homogeneous { element: self.element * rhs.element, rational: self.rational * rhs.rational }
    }
}

impl<E, R> MulSpecImpl for Homogeneous<E, R> where E: Mul<Output = E>, R: Mul<Output = R> {
    open spec fn obeys_mul_spec() -> bool {
        E::obeys_mul_spec() && R::obeys_mul_spec()
    }

    open spec fn mul_req(self, rhs: Self) -> bool {
        self.element().mul_req(rhs.element()) && self.rational().mul_req(rhs.rational())
    }

    open spec fn mul_spec(self, rhs: Self) -> Self {
        Self::from_parts(
            self.element().mul_spec(rhs.element()),
            self.rational().mul_spec(rhs.rational()),
        )
    }
}

impl<E, R> Div for Homogeneous<E, R> where E: Div<Output = E>, R: Div<Output = R> {
    type Output = Homogeneous<E, R>;

    fn div(self, rhs: Homogeneous<E, R>) -> (r: Self::Output) {
        Homogeneous { element: self.element / rhs.element, rational: self.rational / rhs.rational }
    }
}

impl<E, R> DivSpecImpl for Homogeneous<E, R> where E: Div<Output = E>, R: Div<Output = R> {
    open spec fn obeys_div_spec() -> bool {
        E::obeys_div_spec() && R::obeys_div_spec()
    }

    open spec fn div_req(self, rhs: Self) -> bool {
        self.element().div_req(rhs.element()) && self.rational().div_req(rhs.rational())
    }

    open spec fn div_spec(self, rhs: Self) -> Self {
        Self::from_parts(
            self.element().div_spec(rhs.element()),
            self.rational().div_spec(rhs.rational()),
        )
    }
}

impl<E, R> Mul<R> for Homogeneous<E, R> where E: Mul<R, Output = E>, R: Mul<Output = R> + Copy {
    type Output = Homogeneous<E, R>;

    fn mul(self, rhs: R) -> (r: Self::Output) {
        Homogeneous { element: self.element * rhs, rational: self.rational * rhs }
    }
}

impl<E, R> MulSpecImpl<R> for Homogeneous<E, R> where E: Mul<R, Output = E>, R: Mul<Output = R> + Copy {
    open spec fn obeys_mul_spec() -> bool {
        <E as MulSpec<R>>::obeys_mul_spec() && <R as MulSpec>::obeys_mul_spec()
    }

    open spec fn mul_req(self, rhs: R) -> bool {
        self.element().mul_req(rhs) && self.rational().mul_req(rhs)
    }

    open spec fn mul_spec(self, rhs: R) -> Self {
        Self::from_parts(self.element().mul_spec(rhs), self.rational().mul_spec(rhs))
    }
}

impl<E, R> Div<R> for Homogeneous<E, R> where E: Div<R, Output = E>, R: Div<Output = R> + Copy {
    type Output = Homogeneous<E, R>;

    fn div(self, rhs: R) -> (r: Self::Output) {
        Homogeneous { element: self.element / rhs, rational: self.rational / rhs }
    }
}

impl<E, R> DivSpecImpl<R> for Homogeneous<E, R> where E: Div<R, Output = E>, R: Div<Output = R> + Copy {
    open spec fn obeys_div_spec() -> bool {
        <E as DivSpec<R>>::obeys_div_spec() && <R as DivSpec>::obeys_div_spec()
    }

    open spec fn div_req(self, rhs: R) -> bool {
        self.element().div_req(rhs) && self.rational().div_req(rhs)
    }

    open spec fn div_spec(self, rhs: R) -> Self {
        Self::from_parts(self.element().div_spec(rhs), self.rational().div_spec(rhs))
    }
}

/// Projecting gives back the element a homogeneous element was made of: `new(e)` (weight one)
/// and `weighted(e, w)` with a nonzero weight both project to `e`. This rests on the laws of a
/// vector space over a field: one is not zero, scaling by one keeps an element, and dividing by
/// a nonzero weight undoes scaling by it.
pub proof fn law_projection_round_trip<E, R>(
    element: E,
    weight: R,
    plain: Homogeneous<E, R>,
    weighted: Homogeneous<E, R>,
) where E: Mul<R, Output = E> + Div<R, Output = E>, R: Scalar
    requires
        plain.element() == element,
        plain.rational() == one::<R>(),
        weight != zero::<R>(),
        weighted.element() == element.mul_spec(weight),
        weighted.rational() == weight,
        one::<R>() != zero::<R>(),
        forall|e: E| #[trigger] e.mul_spec(one::<R>()) == e,
        forall|e: E, w: R| w != zero::<R>() ==> #[trigger] e.mul_spec(w).div_spec(w) == e,
    ensures
        project_spec(plain) == element,
        project_spec(weighted) == element,
{
    assert(element.mul_spec(one::<R>()) == element);
    assert(element.mul_spec(one::<R>()).div_spec(one::<R>()) == element);
    assert(element.mul_spec(weight).div_spec(weight) == element);
}

} // verus!
