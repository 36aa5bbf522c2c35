//! Plateau easing: constant near both ends, stretched linearly in the middle.
use vstd::prelude::*;
use vstd::std_specs::ops::{SubSpec, DivSpec, AddSpec};
use vstd::std_specs::cmp::PartialOrdIs;
use crate::base::{Generator, Curve};
use crate::scalar::{Scalar, scalar_ops_defined, scalar_ops_obeyed, scalar_exact, one, zero};
use super::small;

verus! {

/// Plateau easing function: the output stays at zero (one) for inputs up to `strength / 2`
/// away from zero (one) and rises linearly in between. A strength of zero gives the identity on
/// `[0, 1]`; a strength of one gives zero below one half and one above it.
#[derive(Debug, Copy, Clone)]
pub struct Plateau<R> {
    min: R,
    max: R,
}

impl<R> Plateau<R> {
    /// The input up to which the output is zero.
    pub closed spec fn min(&self) -> R {
        self.min
    }

    /// The input from which on the output is one.
    pub closed spec fn max(&self) -> R {
        self.max
    }
}

/// `0` below `min`, `1` above `max` and linear in between.
pub open spec fn over_clamp_spec<R: Scalar>(input: R, min: R, max: R) -> R {
    if input.is_lt(&min) {
        zero::<R>()
    } else if input.is_gt(&max) {
        one::<R>()
    } else {
        input.sub_spec(min).div_spec(max.sub_spec(min))
    }
}

/// Maps `[min, max]` linearly onto `[0, 1]`; everything below is 0 and above is 1.
fn over_clamp<R: Scalar>(input: R, min: R, max: R) -> (r: R)
    requires
        scalar_ops_defined::<R>(),
    ensures
        scalar_exact::<R>() ==> r == over_clamp_spec(input, min, max),
{
    if input < min {
        R::from(0u8)
    } else if input > max {
        R::from(1u8)
    } else {
        (input - min) / (max - min)
    }
}

impl<R: Scalar> Plateau<R> {
    /// Create a plateau easing of the given strength, which should be in `[0, 1]`: the output
    /// stays constant for inputs up to `strength / 2` away from either end.
    pub fn new(strength: R) -> (r: Self)
        requires
            scalar_ops_defined::<R>(),
        ensures
            scalar_ops_obeyed::<R>() ==> {
                let halfed = strength.div_spec(small::<R>(2));
                &&& r.min() == zero::<R>().add_spec(halfed)
                &&& r.max() == one::<R>().sub_spec(halfed)
            },
    {
        let halfed = strength / R::from(2u8);
        Plateau { min: R::from(0u8) + halfed, max: R::from(1u8) - halfed }
    }
}

impl<R: Scalar> Generator<R> for Plateau<R> {
    type Output = R;

    open spec fn accepts(&self, input: R) -> bool {
        scalar_ops_defined::<R>()
    }

    open spec fn gen_spec(&self, input: R) -> R {
        over_clamp_spec(input, self.min(), self.max())
    }

    open spec fn exact(&self) -> bool {
        scalar_exact::<R>()
    }

    fn gen(&self, input: R) -> (r: R) {
        over_clamp(input, self.min, self.max)
    }
}

impl<R: Scalar> Curve<R> for Plateau<R> {
    open spec fn domain_spec(&self) -> [R; 2] {
        [zero::<R>(), one::<R>()]
    }

    open spec fn has_domain(&self) -> bool {
        true
    }

    /// The domain `[0, 1]`.
    fn domain(&self) -> (r: [R; 2]) {
        [R::from(0u8), R::from(1u8)]
    }
}

} // verus!
