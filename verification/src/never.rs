//! An uninhabited type, standing in for the never type `!`.
use vstd::prelude::*;
use core::convert::Infallible;

verus! {

/// Type without values: its only field is of the uninhabited type `Infallible`, such that no
/// value of it can be created and it takes no space.
#[derive(Clone, Copy, Debug, Eq, Hash, Ord, PartialEq, PartialOrd)]
pub struct Never(Infallible);

} // verus!
