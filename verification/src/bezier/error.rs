//! All error types for bezier curves.
use vstd::prelude::*;
pub use crate::builder::{Empty, TooSmallWorkspace};

verus! {

/// Errors which could occur when creating a bezier curve.
#[derive(Debug, Copy, Clone, PartialEq, Eq, Structural)]
pub enum BezierError {
    /// Error returned if the generator does not contain any elements.
    Empty(Empty),
    /// Error returned if the given workspace is too small for the interpolation to use.
    TooSmallWorkspace(TooSmallWorkspace),
}

impl From<Empty> for BezierError {
    fn from(from: Empty) -> (r: Self) {
        BezierError::Empty(from)
    }
}

impl vstd::std_specs::convert::FromSpecImpl<Empty> for BezierError {
    open spec fn obeys_from_spec() -> bool {
        true
    }

    open spec fn from_spec(v: Empty) -> Self {
        BezierError::Empty(v)
    }
}

impl From<TooSmallWorkspace> for BezierError {
    fn from(from: TooSmallWorkspace) -> (r: Self) {
        BezierError::TooSmallWorkspace(from)
    }
}

impl vstd::std_specs::convert::FromSpecImpl<TooSmallWorkspace> for BezierError {
    open spec fn obeys_from_spec() -> bool {
        true
    }

    open spec fn from_spec(v: TooSmallWorkspace) -> Self {
        BezierError::TooSmallWorkspace(v)
    }
}

} // verus!
