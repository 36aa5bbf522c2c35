//! Homogeneous elements, weighted interpolations and the adaptors to handle them.
//!
//! `Weights` turns the output of a generator into homogeneous elements, which an interpolation
//! can then work with; `Weighted` projects the homogeneous output of an interpolation back.
use vstd::prelude::*;
use vstd::std_specs::ops::MulSpec;
use vstd::std_specs::convert::FromSpec;
use vstd::std_specs::cmp::PartialEqSpec;
use core::ops::Mul;
use crate::base::{Generator, DiscreteGenerator, ConstDiscreteGenerator};
use crate::scalar::{Scalar, zero};

pub mod homogeneous;
pub mod weighted;

pub use homogeneous::Homogeneous;
pub use weighted::{Weighted, Project};

verus! {

/// Values which can be turned into a homogeneous element.
pub trait IntoWeight: Sized {
    /// The type of the element.
    type Element;

    /// The type of the weight.
    type Weight;

    /// The conversion is defined for this value.
    spec fn into_weight_req(&self) -> bool;

    /// The homogeneous element this value converts into.
    spec fn into_weight_spec(&self) -> Homogeneous<Self::Element, Self::Weight>;

    /// The conversion is known to return `into_weight_spec`.
    spec fn into_weight_exact() -> bool;

    /// Convert the value into a homogeneous element.
    fn into_weight(self) -> (r: Homogeneous<Self::Element, Self::Weight>)
        requires
            self.into_weight_req(),
        ensures
            Self::into_weight_exact() ==> r == self.into_weight_spec(),
    ;
}

/// An element and its weight: the element is weighted, or becomes a point at infinity in its
/// direction if the weight is zero.
impl<T, R> IntoWeight for (T, R) where T: Mul<R, Output = T>, R: Scalar {
    type Element = T;

    type Weight = R;

    open spec fn into_weight_req(&self) -> bool {
        self.0.mul_req(self.1)
    }

    open spec fn into_weight_spec(&self) -> Homogeneous<T, R> {
        if self.1.eq_spec(&zero::<R>()) {
            Homogeneous::from_parts(self.0, zero::<R>())
        } else {
            Homogeneous::from_parts(self.0.mul_spec(self.1), self.1)
        }
    }

    open spec fn into_weight_exact() -> bool {
        &&& <R as FromSpec<u8>>::obeys_from_spec()
        &&& R::obeys_eq_spec()
        &&& T::obeys_mul_spec()
    }

    fn into_weight(self) -> (r: Homogeneous<T, R>) {
        let r = Homogeneous::weighted_or_infinite(self.0, self.1);
        proof {
            Homogeneous::<T, R>::lemma_parts(r);
        }
        r
    }
}

/// A homogeneous element stays as it is.
impl<T, R> IntoWeight for Homogeneous<T, R> where T: Mul<R, Output = T>, R: Scalar {
    type Element = T;

    type Weight = R;

    open spec fn into_weight_req(&self) -> bool {
        true
    }

    open spec fn into_weight_spec(&self) -> Homogeneous<T, R> {
        *self
    }

    open spec fn into_weight_exact() -> bool {
        true
    }

    fn into_weight(self) -> (r: Homogeneous<T, R>) {
        self
    }
}

/// Discrete generator adaptor which turns the output of the underlying generator into
/// homogeneous elements.
///
/// The conversion has to be defined for every output of the underlying generator.
#[derive(Debug)]
pub struct Weights<G: DiscreteGenerator> where G::Output: IntoWeight {
    gen: G,
}

impl<G: DiscreteGenerator> Weights<G> where G::Output: IntoWeight {
    #[verifier::type_invariant]
    spec fn converts(&self) -> bool {
        forall|o: G::Output| #[trigger] o.into_weight_req()
    }

    /// The underlying generator.
    pub closed spec fn inner(&self) -> G {
        self.gen
    }

    /// Create a generator of homogeneous elements out of the given generator.
    pub fn new(gen: G) -> (r: Self)
        requires
            forall|o: G::Output| #[trigger] o.into_weight_req(),
        ensures
            r.inner() == gen,
    {
        Weights { gen }
    }
}

impl<G: DiscreteGenerator> Generator<usize> for Weights<G> where G::Output: IntoWeight {
    type Output = Homogeneous<<G::Output as IntoWeight>::Element, <G::Output as IntoWeight>::Weight>;

    open spec fn accepts(&self, input: usize) -> bool {
        self.inner().accepts(input)
    }

    open spec fn gen_spec(&self, input: usize) -> Self::Output {
        self.inner().gen_spec(input).into_weight_spec()
    }

    open spec fn exact(&self) -> bool {
        &&& self.inner().exact()
        &&& <G::Output as IntoWeight>::into_weight_exact()
    }

    fn gen(&self, input: usize) -> (r: Self::Output) {
        proof {
            use_type_invariant(self);
        }
        let value = self.gen.gen(input);
        proof {
            assert(value.into_weight_req());
        }
        value.into_weight()
    }
}

impl<G: DiscreteGenerator> DiscreteGenerator for Weights<G> where G::Output: IntoWeight {
    open spec fn len_spec(&self) -> nat {
        self.inner().len_spec()
    }

    proof fn lemma_accepts(&self, i: usize) {
        self.inner().lemma_accepts(i);
    }

    fn len(&self) -> (r: usize) {
        self.gen.len()
    }
}

impl<G, const N: usize> ConstDiscreteGenerator<N> for Weights<G> where
    G: ConstDiscreteGenerator<N>,
    G::Output: IntoWeight,
 {
    proof fn lemma_len_is_const(&self) {
        self.inner().lemma_len_is_const();
    }
}

} // verus!
