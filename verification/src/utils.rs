//! Utilities used across the interpolations or helpful to users of the library.
use vstd::prelude::*;
use core::ops::{Add, Mul};
use crate::scalar::{Scalar, merge_spec, element_ops_defined, element_ops_obeyed, scalar_ops_defined, scalar_ops_obeyed};

verus! {

/// Linear interpolation between `first` and `second`: `first * (1 - factor) + second * factor`.
pub fn lerp<T, R>(first: T, second: T, factor: R) -> (r: T)
    where
        T: Add<Output = T> + Mul<R, Output = T>,
        R: Scalar,
    requires
        element_ops_defined::<T, R>(),
        scalar_ops_defined::<R>(),
    ensures
        element_ops_obeyed::<T, R>() && scalar_ops_obeyed::<R>() ==> r == merge_spec(first, second, factor),
{
    first * (R::from(1u8) - factor) + second * factor
}

} // verus!
