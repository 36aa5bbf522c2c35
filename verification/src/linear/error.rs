//! All error types for linear interpolation.
use vstd::prelude::*;
pub use crate::builder::TooFewElements;
pub use crate::base::NotSorted;

verus! {

/// Errors which could occur when using or creating a linear interpolation.
#[derive(Debug, Copy, Clone, PartialEq, Eq, Structural)]
pub enum LinearError {
    /// Error returned if the elements are too few for a linear interpolation.
    ToFewElements(TooFewElements),
    /// Error returned if the number of knots and elements are not equal.
    KnotElementInequality(KnotElementInequality),
    /// Error returned if the knots are not sorted.
    NotSorted(NotSorted),
}

impl From<TooFewElements> for LinearError {
    fn from(from: TooFewElements) -> (r: Self) {
        LinearError::ToFewElements(from)
    }
}

impl vstd::std_specs::convert::FromSpecImpl<TooFewElements> for LinearError {
    open spec fn obeys_from_spec() -> bool {
        true
    }

    open spec fn from_spec(v: TooFewElements) -> Self {
        LinearError::ToFewElements(v)
    }
}

impl From<KnotElementInequality> for LinearError {
    fn from(from: KnotElementInequality) -> (r: Self) {
        LinearError::KnotElementInequality(from)
    }
}

impl vstd::std_specs::convert::FromSpecImpl<KnotElementInequality> for LinearError {
    open spec fn obeys_from_spec() -> bool {
        true
    }

    open spec fn from_spec(v: KnotElementInequality) -> Self {
        LinearError::KnotElementInequality(v)
    }
}

impl From<NotSorted> for LinearError {
    fn from(from: NotSorted) -> (r: Self) {
        LinearError::NotSorted(from)
    }
}

impl vstd::std_specs::convert::FromSpecImpl<NotSorted> for LinearError {
    open spec fn obeys_from_spec() -> bool {
        true
    }

    open spec fn from_spec(v: NotSorted) -> Self {
        LinearError::NotSorted(v)
    }
}

/// Error returned if the number of elements and the number of knots are not matching.
#[derive(Debug, Copy, Clone, PartialEq, Eq, Structural)]
pub struct KnotElementInequality {
    elements: usize,
    knots: usize,
}

impl KnotElementInequality {
    /// Create a new error with the number of elements and knots found.
    pub fn new(elements: usize, knots: usize) -> (r: Self)
        ensures
            r.elements_spec() == elements,
            r.knots_spec() == knots,
    {
        KnotElementInequality { elements, knots }
    }

    /// The number of elements found.
    pub closed spec fn elements_spec(&self) -> usize {
        self.elements
    }

    /// The number of knots found.
    pub closed spec fn knots_spec(&self) -> usize {
        self.knots
    }

    /// The number of elements found.
    pub fn elements(&self) -> (r: usize)
        ensures
            r == self.elements_spec(),
    {
        self.elements
    }

    /// The number of knots found.
    pub fn knots(&self) -> (r: usize)
        ensures
            r == self.knots_spec(),
    {
        self.knots
    }
}

} // verus!
