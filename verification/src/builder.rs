//! Structures, markers and errors used by many builders.
use vstd::prelude::*;
use core::marker::PhantomData;

verus! {

/// Marker that the elements are used without weights.
#[derive(Debug, Copy, Clone)]
pub struct WithoutWeight;

/// Marker that the elements are used with weights.
#[derive(Debug, Copy, Clone)]
pub struct WithWeight;

/// Marker for information not yet given.
#[derive(Debug, Copy, Clone)]
pub struct Unknown;

/// Marker to use the normalized input domain `[0, 1]`.
#[derive(Debug)]
pub struct NormalizedInput<R>(PhantomData<R>);

impl<R> NormalizedInput<R> {
    /// Create the marker.
    pub fn new() -> Self {
        NormalizedInput(PhantomData)
    }
}

/// The input domain to use.
#[derive(Debug, Copy, Clone)]
pub struct InputDomain<R> {
    /// Start of the domain.
    pub start: R,
    /// End of the domain.
    pub end: R,
}

impl<R> InputDomain<R> {
    /// Create the domain `[start, end]`.
    pub fn new(start: R, end: R) -> (r: Self)
        ensures
            r.start == start,
            r.end == end,
    {
        InputDomain { start, end }
    }
}

/// Marker of the type of the knots to use.
#[derive(Debug)]
pub struct Type<R>(PhantomData<R>);

impl<R> Type<R> {
    /// Create the marker.
    pub fn new() -> Self {
        Type(PhantomData)
    }
}

/// Error returned if there are no elements.
#[derive(Debug, Copy, Clone, PartialEq, Eq, Structural)]
pub struct Empty {}

impl Empty {
    /// Create a new error.
    pub fn new() -> Self {
        Empty {}
    }
}

/// Error returned if the elements are too few for the interpolation.
#[derive(Debug, Copy, Clone, PartialEq, Eq, Structural)]
pub struct TooFewElements {
    found: usize,
}

impl TooFewElements {
    /// Create a new error and document the number of elements found.
    pub fn new(found: usize) -> (r: Self)
        ensures
            r.found_spec() == found,
    {
        TooFewElements { found }
    }

    /// The number of elements found.
    pub closed spec fn found_spec(&self) -> usize {
        self.found
    }

    /// The number of elements found.
    pub fn found(&self) -> (r: usize)
        ensures
            r == self.found_spec(),
    {
        self.found
    }
}

/// Error returned if the knots are too few.
#[derive(Debug, Copy, Clone, PartialEq, Eq, Structural)]
pub struct TooFewKnots {
    found: usize,
}

impl TooFewKnots {
    /// Create a new error and document the number of knots found.
    pub fn new(found: usize) -> (r: Self)
        ensures
            r.found_spec() == found,
    {
        TooFewKnots { found }
    }

    /// The number of knots found.
    pub closed spec fn found_spec(&self) -> usize {
        self.found
    }

    /// The number of knots found.
    pub fn found(&self) -> (r: usize)
        ensures
            r == self.found_spec(),
    {
        self.found
    }
}

/// Error returned if the workspace is too small.
#[derive(Debug, Copy, Clone, PartialEq, Eq, Structural)]
pub struct TooSmallWorkspace {
    found: usize,
    necessary: usize,
}

impl TooSmallWorkspace {
    /// Create a new error.
    pub fn new(found: usize, necessary: usize) -> (r: Self)
        ensures
            r.found_spec() == found,
            r.necessary_spec() == necessary,
    {
        TooSmallWorkspace { found, necessary }
    }

    /// The size of the workspace found.
    pub closed spec fn found_spec(&self) -> usize {
        self.found
    }

    /// The size of the workspace necessary.
    pub closed spec fn necessary_spec(&self) -> usize {
        self.necessary
    }

    /// The size of the workspace found.
    pub fn found(&self) -> (r: usize)
        ensures
            r == self.found_spec(),
    {
        self.found
    }

    /// The size of the workspace necessary.
    pub fn necessary(&self) -> (r: usize)
        ensures
            r == self.necessary_spec(),
    {
        self.necessary
    }
}

} // verus!
