//! Interpolations and curves (linear, bezier and bspline), generic over the elements they
//! interpolate and the scalars they take as input, with contracts verified by Verus.
//!
//! Interpolations are generators: `gen` gives the element at an input. Discrete generators
//! (arrays, vectors, slices and their adaptors) give the elements and knots the interpolations
//! work with; curves have a domain. Builders create the interpolations step by step.
use vstd::prelude::*;

pub mod base;
pub mod bezier;
pub mod bspline;
pub mod builder;
pub mod easing;
pub mod linear;
pub mod never;
pub mod scalar;
pub mod utils;
pub mod weights;

pub use base::{
    Clamp, Composite, ConstDiscreteGenerator, ConstEquidistant, ConstSpace, Curve,
    DiscreteGenerator, DynSpace, Equidistant, Generator, Interpolation, IntoIter, NotSorted,
    Repeat, Slice, Sorted, SortedGenerator, Space, Stack, Stepper, Take, TransformInput, Workspace,
    Wrap,
};
pub use easing::Identity;
