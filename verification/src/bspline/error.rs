//! All error types for bspline interpolation.
use vstd::prelude::*;
pub use crate::builder::{TooFewElements, TooFewKnots, TooSmallWorkspace};
pub use crate::base::NotSorted;

verus! {

/// Errors which could occur when creating a bspline interpolation.
#[derive(Debug, Copy, Clone, PartialEq, Eq, Structural)]
pub enum BSplineError {
    /// Error returned if there are too few elements.
    TooFewElements(TooFewElements),
    /// Error returned if there are too few knots.
    TooFewKnots(TooFewKnots),
    /// Error returned if the workspace is not big enough.
    TooSmallWorkspace(TooSmallWorkspace),
    /// Error returned when the degree is 0 or smaller, or not smaller than the number of elements.
    InvalidDegree(InvalidDegree),
    /// Error returned if knots are not sorted.
    NotSorted(NotSorted),
    /// Error returned when elements and knots are not matching together.
    IncongruousElementsKnots(IncongruousElementsKnots),
    /// Error returned when elements and degree are ill-matched.
    IncongruousElementsDegree(IncongruousElementsDegree),
}

/// Error returned if the degree of the curve would not be valid.
#[derive(Debug, Copy, Clone, PartialEq, Eq, Structural)]
pub struct InvalidDegree {
    degree: isize,
}

impl InvalidDegree {
    /// Create a new error with the degree calculated.
    pub fn new(degree: isize) -> (r: Self)
        ensures
            r.degree_spec() == degree,
    {
        InvalidDegree { degree }
    }

    /// The degree calculated.
    pub closed spec fn degree_spec(&self) -> isize {
        self.degree
    }

    /// The degree calculated.
    pub fn degree(&self) -> (r: isize)
        ensures
            r == self.degree_spec(),
    {
        self.degree
    }
}

/// The mode a bspline was built in.
#[derive(Debug, Copy, Clone, PartialEq, Eq, Structural)]
pub enum BSplineBuildMode {
    /// Open bsplines, knots given as they are.
    Open,
    /// Clamped bsplines, the first and last knots are repeated.
    Clamped,
    /// The usual definition of knots, the first and last knot are ignored.
    Legacy,
}

/// Error returned when the number of elements and knots are ill-matched.
#[derive(Debug, Copy, Clone, PartialEq, Eq, Structural)]
pub struct IncongruousElementsKnots {
    elements: usize,
    knots: usize,
    mode: BSplineBuildMode,
}

impl IncongruousElementsKnots {
    /// The number of elements found.
    pub closed spec fn elements_spec(&self) -> usize {
        self.elements
    }

    /// The number of knots found.
    pub closed spec fn knots_spec(&self) -> usize {
        self.knots
    }

    /// The mode of the builder.
    pub closed spec fn mode_spec(&self) -> BSplineBuildMode {
        self.mode
    }

    /// Invalid values for an open bspline.
    pub fn open(elements: usize, knots: usize) -> (r: Self)
        ensures
            r.elements_spec() == elements,
            r.knots_spec() == knots,
            r.mode_spec() == BSplineBuildMode::Open,
    {
        IncongruousElementsKnots { elements, knots, mode: BSplineBuildMode::Open }
    }

    /// Invalid values for a clamped bspline.
    pub fn clamped(elements: usize, knots: usize) -> (r: Self)
        ensures
            r.elements_spec() == elements,
            r.knots_spec() == knots,
            r.mode_spec() == BSplineBuildMode::Clamped,
    {
        IncongruousElementsKnots { elements, knots, mode: BSplineBuildMode::Clamped }
    }

    /// Invalid values for a legacy bspline.
    pub fn legacy(elements: usize, knots: usize) -> (r: Self)
        ensures
            r.elements_spec() == elements,
            r.knots_spec() == knots,
            r.mode_spec() == BSplineBuildMode::Legacy,
    {
        IncongruousElementsKnots { elements, knots, mode: BSplineBuildMode::Legacy }
    }

    /// The number of elements found.
    pub fn elements(&self) -> (r: usize)
        ensures
            r == self.elements_spec(),
    {
        self.elements
    }

    /// The number of knots found.
    pub fn knots(&self) -> (r: usize)
        ensures
            r == self.knots_spec(),
    {
        self.knots
    }

    /// The mode of the builder.
    pub fn mode(&self) -> (r: BSplineBuildMode)
        ensures
            r == self.mode_spec(),
    {
        self.mode
    }
}

/// Error returned when the number of elements and the degree are ill-matched.
#[derive(Debug, Copy, Clone, PartialEq, Eq, Structural)]
pub struct IncongruousElementsDegree {
    elements: usize,
    degree: usize,
    mode: BSplineBuildMode,
}

impl IncongruousElementsDegree {
    /// The number of elements found.
    pub closed spec fn elements_spec(&self) -> usize {
        self.elements
    }

    /// The degree found.
    pub closed spec fn degree_spec(&self) -> usize {
        self.degree
    }

    /// The mode of the builder.
    pub closed spec fn mode_spec(&self) -> BSplineBuildMode {
        self.mode
    }

    /// Invalid values for an open bspline.
    pub fn open(elements: usize, degree: usize) -> (r: Self)
        ensures
            r.elements_spec() == elements,
            r.degree_spec() == degree,
            r.mode_spec() == BSplineBuildMode::Open,
    {
        IncongruousElementsDegree { elements, degree, mode: BSplineBuildMode::Open }
    }

    /// Invalid values for a clamped bspline.
    pub fn clamped(elements: usize, degree: usize) -> (r: Self)
        ensures
            r.elements_spec() == elements,
            r.degree_spec() == degree,
            r.mode_spec() == BSplineBuildMode::Clamped,
    {
        IncongruousElementsDegree { elements, degree, mode: BSplineBuildMode::Clamped }
    }

    /// Invalid values for a legacy bspline.
    pub fn legacy(elements: usize, degree: usize) -> (r: Self)
        ensures
            r.elements_spec() == elements,
            r.degree_spec() == degree,
            r.mode_spec() == BSplineBuildMode::Legacy,
    {
        IncongruousElementsDegree { elements, degree, mode: BSplineBuildMode::Legacy }
    }

    /// The number of elements found.
    pub fn elements(&self) -> (r: usize)
        ensures
            r == self.elements_spec(),
    {
        self.elements
    }

    /// The degree found.
    pub fn degree(&self) -> (r: usize)
        ensures
            r == self.degree_spec(),
    {
        self.degree
    }

    /// The mode of the builder.
    pub fn mode(&self) -> (r: BSplineBuildMode)
        ensures
            r == self.mode_spec(),
    {
        self.mode
    }
}

impl From<TooFewElements> for BSplineError {
    fn from(from: TooFewElements) -> (r: Self) {
        BSplineError::TooFewElements(from)
    }
}

impl vstd::std_specs::convert::FromSpecImpl<TooFewElements> for BSplineError {
    open spec fn obeys_from_spec() -> bool {
        true
    }

    open spec fn from_spec(v: TooFewElements) -> Self {
        BSplineError::TooFewElements(v)
    }
}

impl From<NotSorted> for BSplineError {
    fn from(from: NotSorted) -> (r: Self) {
        BSplineError::NotSorted(from)
    }
}

impl vstd::std_specs::convert::FromSpecImpl<NotSorted> for BSplineError {
    open spec fn obeys_from_spec() -> bool {
        true
    }

    open spec fn from_spec(v: NotSorted) -> Self {
        BSplineError::NotSorted(v)
    }
}

impl From<InvalidDegree> for BSplineError {
    fn from(from: InvalidDegree) -> (r: Self) {
        BSplineError::InvalidDegree(from)
    }
}

impl vstd::std_specs::convert::FromSpecImpl<InvalidDegree> for BSplineError {
    open spec fn obeys_from_spec() -> bool {
        true
    }

    open spec fn from_spec(v: InvalidDegree) -> Self {
        BSplineError::InvalidDegree(v)
    }
}

impl From<TooSmallWorkspace> for BSplineError {
    fn from(from: TooSmallWorkspace) -> (r: Self) {
        BSplineError::TooSmallWorkspace(from)
    }
}

impl vstd::std_specs::convert::FromSpecImpl<TooSmallWorkspace> for BSplineError {
    open spec fn obeys_from_spec() -> bool {
        true
    }

    open spec fn from_spec(v: TooSmallWorkspace) -> Self {
        BSplineError::TooSmallWorkspace(v)
    }
}

impl From<TooFewKnots> for BSplineError {
    fn from(from: TooFewKnots) -> (r: Self) {
        BSplineError::TooFewKnots(from)
    }
}

impl vstd::std_specs::convert::FromSpecImpl<TooFewKnots> for BSplineError {
    open spec fn obeys_from_spec() -> bool {
        true
    }

    open spec fn from_spec(v: TooFewKnots) -> Self {
        BSplineError::TooFewKnots(v)
    }
}

impl From<IncongruousElementsKnots> for BSplineError {
    fn from(from: IncongruousElementsKnots) -> (r: Self) {
        BSplineError::IncongruousElementsKnots(from)
    }
}

impl vstd::std_specs::convert::FromSpecImpl<IncongruousElementsKnots> for BSplineError {
    open spec fn obeys_from_spec() -> bool {
        true
    }

    open spec fn from_spec(v: IncongruousElementsKnots) -> Self {
        BSplineError::IncongruousElementsKnots(v)
    }
}

impl From<IncongruousElementsDegree> for BSplineError {
    fn from(from: IncongruousElementsDegree) -> (r: Self) {
        BSplineError::IncongruousElementsDegree(from)
    }
}

impl vstd::std_specs::convert::FromSpecImpl<IncongruousElementsDegree> for BSplineError {
    open spec fn obeys_from_spec() -> bool {
        true
    }

    open spec fn from_spec(v: IncongruousElementsDegree) -> Self {
        BSplineError::IncongruousElementsDegree(v)
    }
}

} // verus!
