//! The adaptor `Weighted`, which hides the homogeneous elements of an interpolation.
use vstd::prelude::*;
use vstd::std_specs::ops::DivSpec;
use core::ops::Div;
use crate::base::{Generator, Curve};
use crate::scalar::Scalar;
use super::homogeneous::{Homogeneous, project_spec};

verus! {

/// Values which can be projected from homogeneous space into the space of their elements.
pub trait Project: Sized {
    /// The type of the element.
    type Element;

    /// The type of the weight.
    type Weight;

    /// The projection is defined for this value.
    spec fn project_req(&self) -> bool;

    /// The projected element.
    spec fn projected(&self) -> Self::Element;

    /// The projection is known to return `projected`.
    spec fn project_exact() -> bool;

    /// Project the value into the space of its elements.
    fn project(self) -> (r: Self::Element)
        requires
            self.project_req(),
        ensures
            Self::project_exact() ==> r == self.projected(),
    ;
}

impl<T, R> Project for Homogeneous<T, R> where T: Div<R, Output = T> {
    type Element = T;

    type Weight = R;

    open spec fn project_req(&self) -> bool {
        self.element().div_req(self.rational())
    }

    open spec fn projected(&self) -> T {
        project_spec(*self)
    }

    open spec fn project_exact() -> bool {
        T::obeys_div_spec()
    }

    fn project(self) -> (r: T) {
        Homogeneous::project(self)
    }
}

/// Adaptor which projects the homogeneous output of an interpolation back, such that weighted
/// interpolations output plain elements.
#[derive(Debug, Copy, Clone)]
pub struct Weighted<G> {
    inner: G,
}

impl<G> Weighted<G> {
    /// The wrapped interpolation.
    pub closed spec fn wrapped(&self) -> G {
        self.inner
    }

    /// Wrap an interpolation with homogeneous output.
    pub fn new(signal: G) -> (r: Self)
        ensures
            r.wrapped() == signal,
    {
        Weighted { inner: signal }
    }

    /// Return the wrapped interpolation.
    pub fn inner(self) -> (r: G)
        ensures
            r == self.wrapped(),
    {
        self.inner
    }
}

impl<G, I> Generator<I> for Weighted<G> where G: Generator<I>, G::Output: Project {
    type Output = <G::Output as Project>::Element;

    open spec fn accepts(&self, input: I) -> bool {
        &&& self.wrapped().accepts(input)
        &&& forall|o: G::Output| #[trigger] o.project_req()
    }

    open spec fn gen_spec(&self, input: I) -> Self::Output {
        self.wrapped().gen_spec(input).projected()
    }

    open spec fn exact(&self) -> bool {
        &&& self.wrapped().exact()
        &&& <G::Output as Project>::project_exact()
    }

    fn gen(&self, input: I) -> (r: Self::Output) {
        let value = self.inner.gen(input);
        proof {
            assert(value.project_req());
        }
        value.project()
    }
}

impl<G, R> Curve<R> for Weighted<G> where G: Curve<R>, G::Output: Project, R: Scalar {
    open spec fn domain_spec(&self) -> [R; 2] {
        self.wrapped().domain_spec()
    }

    open spec fn has_domain(&self) -> bool {
        self.wrapped().has_domain()
    }

    fn domain(&self) -> (r: [R; 2]) {
        self.inner.domain()
    }
}

} // verus!
