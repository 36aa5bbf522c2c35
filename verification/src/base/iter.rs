//! Iteration over the elements of a discrete generator.
use vstd::prelude::*;
use vstd::std_specs::ops::{SubSpec, DivSpec};
use super::{Generator, DiscreteGenerator, Curve, gen_view};
use super::list::Equidistant;
use crate::scalar::{Scalar, scalar_ops_defined, scalar_ops_obeyed, scalar_of, one, zero};

verus! {

/// Double-ended iteration over the elements of a discrete generator.
///
/// The elements not yet yielded are those with an index in `[front, back)`.
#[derive(Debug)]
pub struct IntoIter<G: DiscreteGenerator> {
    gen: G,
    front: usize,
    back: usize,
}

impl<G: DiscreteGenerator> IntoIter<G> {
    #[verifier::type_invariant]
    spec fn in_bounds(&self) -> bool {
        self.front <= self.back <= self.gen.len_spec()
    }

    /// The generator iterated over.
    pub closed spec fn generator(&self) -> G {
        self.gen
    }

    /// The index of the next element yielded from the front.
    pub closed spec fn front(&self) -> usize {
        self.front
    }

    /// One past the index of the next element yielded from the back.
    pub closed spec fn back(&self) -> usize {
        self.back
    }

    /// The elements not yet yielded, in order.
    pub open spec fn remaining(&self) -> Seq<G::Output> {
        gen_view(&self.generator()).subrange(self.front() as int, self.back() as int)
    }

    /// Creates an iterator over all elements of the given generator.
    pub fn new(gen: G) -> (r: Self)
        ensures
            r.generator() == gen,
            r.front() == 0,
            r.back() == gen.len_spec(),
            r.remaining() == gen_view(&gen),
    {
        let back = gen.len();
        IntoIter { front: 0, back, gen }
    }

    /// Yields the next element from the front.
    pub fn next(&mut self) -> (r: Option<G::Output>)
        ensures
            final(self).generator() == old(self).generator(),
            final(self).back() == old(self).back(),
            old(self).front() < old(self).back() ==> final(self).front() == old(self).front() + 1
                && r is Some && (old(self).generator().exact() ==> r == Some(
                old(self).generator().gen_spec(old(self).front()),
            )),
            old(self).front() >= old(self).back() ==> final(self).front() == old(self).front()
                && r is None,
            old(self).remaining().len() == 0 ==> r is None && final(self).remaining() == old(
                self,
            ).remaining(),
            old(self).remaining().len() > 0 ==> final(self).remaining() == old(
                self,
            ).remaining().drop_first() && (old(self).generator().exact() ==> r == Some(
                old(self).remaining()[0],
            )),
    {
        proof {
            use_type_invariant(&*self);
        }
        if self.front < self.back {
            proof {
                self.gen.lemma_accepts(self.front);
            }
            let res = self.gen.gen(self.front);
            self.front = self.front + 1;
            return Some(res);
        }
        None
    }

    /// Yields the next element from the back.
    pub fn next_back(&mut self) -> (r: Option<G::Output>)
        ensures
            final(self).generator() == old(self).generator(),
            final(self).front() == old(self).front(),
            old(self).front() < old(self).back() ==> final(self).back() == old(self).back() - 1
                && r is Some && (old(self).generator().exact() ==> r == Some(
                old(self).generator().gen_spec((old(self).back() - 1) as usize),
            )),
            old(self).front() >= old(self).back() ==> final(self).back() == old(self).back()
                && r is None,
            old(self).remaining().len() == 0 ==> r is None && final(self).remaining() == old(
                self,
            ).remaining(),
            old(self).remaining().len() > 0 ==> final(self).remaining() == old(
                self,
            ).remaining().drop_last() && (old(self).generator().exact() ==> r == Some(
                old(self).remaining().last(),
            )),
    {
        proof {
            use_type_invariant(&*self);
        }
        if self.front < self.back {
            let index = self.back - 1;
            proof {
                self.gen.lemma_accepts(index);
            }
            let res = self.gen.gen(index);
            self.back = index;
            return Some(res);
        }
        None
    }

    /// The number of elements not yet yielded.
    pub fn count(self) -> (r: usize)
        ensures
            r == self.back() - self.front(),
    {
        proof {
            use_type_invariant(&self);
        }
        self.back - self.front
    }

    /// Lower and upper bound of the number of elements not yet yielded; both are exact.
    pub fn size_hint(&self) -> (r: (usize, Option<usize>))
        ensures
            r.0 == self.back() - self.front(),
            r.1 == Some(r.0),
    {
        proof {
            use_type_invariant(self);
        }
        let len = self.back - self.front;
        (len, Some(len))
    }

    /// Skips `n` elements from the front and yields the next one; if fewer than `n + 1`
    /// elements are left, nothing is skipped and `None` is returned.
    pub fn nth(&mut self, n: usize) -> (r: Option<G::Output>)
        ensures
            final(self).generator() == old(self).generator(),
            final(self).back() == old(self).back(),
            n < old(self).back() - old(self).front() ==> final(self).front() == old(self).front()
                + n + 1 && r is Some && (old(self).generator().exact() ==> r == Some(
                old(self).generator().gen_spec((old(self).front() + n) as usize),
            )),
            n >= old(self).back() - old(self).front() ==> final(self).front() == old(self).front() && r is None,
    {
        proof {
            use_type_invariant(&*self);
        }
        if n >= self.back - self.front {
            return None;
        }
        self.front = self.front + n;
        self.next()
    }

    /// Skips `n` elements from the back and yields the next one from the back; if fewer than
    /// `n + 1` elements are left, nothing is skipped and `None` is returned.
    pub fn nth_back(&mut self, n: usize) -> (r: Option<G::Output>)
        ensures
            final(self).generator() == old(self).generator(),
            final(self).front() == old(self).front(),
            n < old(self).back() - old(self).front() ==> final(self).back() == old(self).back()
                - n - 1 && r is Some && (old(self).generator().exact() ==> r == Some(
                old(self).generator().gen_spec((old(self).back() - n - 1) as usize),
            )),
            n >= old(self).back() - old(self).front() ==> final(self).back() == old(self).back()
                && r is None,
    {
        proof {
            use_type_invariant(&*self);
        }
        if n >= self.back - self.front {
            return None;
        }
        self.back = self.back - n;
        self.next_back()
    }
}

/// Iterator over equidistant steps from a start to an end, both included.
#[derive(Debug)]
pub struct Stepper<R: Scalar>(IntoIter<Equidistant<R>>);

impl<R: Scalar> Stepper<R> {
    /// The iterator over the equidistant steps.
    pub closed spec fn steps(&self) -> IntoIter<Equidistant<R>> {
        self.0
    }

    /// Creates a stepper from 0 to 1 in `steps` steps.
    pub fn normalized(steps: usize) -> (r: Self)
        requires
            steps >= 1,
            scalar_ops_defined::<R>(),
        ensures
            r.steps().front() == 0,
            r.steps().back() == steps,
            r.steps().generator().length() == steps,
            scalar_ops_obeyed::<R>() ==> r.steps().generator().offset() == zero::<R>()
                && r.steps().generator().step_spec() == one::<R>().div_spec(
                scalar_of::<R>((steps - 1) as nat),
            ),
    {
        Stepper(IntoIter::new(Equidistant::normalized(steps)))
    }

    /// Creates a stepper from `start` to `end` in `steps` steps.
    pub fn new(steps: usize, start: R, end: R) -> (r: Self)
        requires
            steps >= 1,
            scalar_ops_defined::<R>(),
        ensures
            r.steps().front() == 0,
            r.steps().back() == steps,
            r.steps().generator().length() == steps,
            r.steps().generator().offset() == start,
            scalar_ops_obeyed::<R>() ==> r.steps().generator().step_spec() == end.sub_spec(
                start,
            ).div_spec(scalar_of::<R>((steps - 1) as nat)),
    {
        Stepper(IntoIter::new(Equidistant::new(steps, start, end)))
    }

    /// Yields the next step from the front.
    pub fn next(&mut self) -> (r: Option<R>)
        ensures
            final(self).steps().generator() == old(self).steps().generator(),
            final(self).steps().back() == old(self).steps().back(),
            old(self).steps().front() < old(self).steps().back() ==> final(self).steps().front()
                == old(self).steps().front() + 1 && r is Some && (scalar_ops_obeyed::<R>() ==> r
                == Some(old(self).steps().generator().gen_spec(old(self).steps().front()))),
            old(self).steps().front() >= old(self).steps().back() ==> final(self).steps().front()
                == old(self).steps().front() && r is None,
    {
        self.0.next()
    }

    /// Yields the next step from the back.
    pub fn next_back(&mut self) -> (r: Option<R>)
        ensures
            final(self).steps().generator() == old(self).steps().generator(),
            final(self).steps().front() == old(self).steps().front(),
            old(self).steps().front() < old(self).steps().back() ==> final(self).steps().back()
                == old(self).steps().back() - 1 && r is Some && (scalar_ops_obeyed::<R>() ==> r
                == Some(
                old(self).steps().generator().gen_spec((old(self).steps().back() - 1) as usize),
            )),
            old(self).steps().front() >= old(self).steps().back() ==> final(self).steps().back()
                == old(self).steps().back() && r is None,
    {
        self.0.next_back()
    }

    /// The number of steps left.
    pub fn count(self) -> (r: usize)
        ensures
            r == self.steps().back() - self.steps().front(),
    {
        self.0.count()
    }

    /// Lower and upper bound of the number of steps left; both are exact.
    pub fn size_hint(&self) -> (r: (usize, Option<usize>))
        ensures
            r.0 == self.steps().back() - self.steps().front(),
            r.1 == Some(r.0),
    {
        self.0.size_hint()
    }
}

/// Equidistant samples of a curve over its domain, both ends included.
#[derive(Debug)]
pub struct Take<C, R: Scalar> {
    curve: C,
    steps: Stepper<R>,
}

impl<C, R: Scalar> Take<C, R> {
    /// The curve sampled.
    pub closed spec fn curve(&self) -> C {
        self.curve
    }

    /// The inputs of the samples.
    pub closed spec fn inputs(&self) -> Stepper<R> {
        self.steps
    }
}

impl<C: Curve<R>, R: Scalar> Take<C, R> {
    /// Takes `samples` equidistant samples of the curve over its domain.
    pub fn new(curve: C, samples: usize) -> (r: Self)
        requires
            samples >= 1,
            scalar_ops_defined::<R>(),
            curve.has_domain(),
        ensures
            r.curve() == curve,
            r.inputs().steps().front() == 0,
            r.inputs().steps().back() == samples,
            r.inputs().steps().generator().length() == samples,
            curve.exact() ==> r.inputs().steps().generator().offset() == curve.domain_spec()[0],
            curve.exact() && scalar_ops_obeyed::<R>() ==> r.inputs().steps().generator().step_spec()
                == curve.domain_spec()[1].sub_spec(curve.domain_spec()[0]).div_spec(
                scalar_of::<R>((samples - 1) as nat),
            ),
    {
        let domain = curve.domain();
        let steps = Stepper::new(samples, domain[0], domain[1]);
        Take { curve, steps }
    }

    /// Yields the next sample from the front.
    pub fn next(&mut self) -> (r: Option<C::Output>)
        requires
            forall|x: R| #[trigger] old(self).curve().accepts(x),
        ensures
            final(self).curve() == old(self).curve(),
            final(self).inputs().steps().generator() == old(self).inputs().steps().generator(),
            final(self).inputs().steps().back() == old(self).inputs().steps().back(),
            old(self).inputs().steps().front() < old(self).inputs().steps().back() ==> final(self).inputs().steps().front() == old(self).inputs().steps().front() + 1 && r is Some && (
            scalar_ops_obeyed::<R>() && old(self).curve().exact() ==> r == Some(
                old(self).curve().gen_spec(
                    old(self).inputs().steps().generator().gen_spec(
                        old(self).inputs().steps().front(),
                    ),
                ),
            )),
            old(self).inputs().steps().front() >= old(self).inputs().steps().back() ==> final(self).inputs().steps().front() == old(self).inputs().steps().front() && r is None,
    {
        match self.steps.next() {
            Some(x) => {
                proof {
                    assert(old(self).curve().accepts(x));
                }
                Some(self.curve.gen(x))
            },
            None => None,
        }
    }

    /// Yields the next sample from the back.
    pub fn next_back(&mut self) -> (r: Option<C::Output>)
        requires
            forall|x: R| #[trigger] old(self).curve().accepts(x),
        ensures
            final(self).curve() == old(self).curve(),
            final(self).inputs().steps().generator() == old(self).inputs().steps().generator(),
            final(self).inputs().steps().front() == old(self).inputs().steps().front(),
            old(self).inputs().steps().front() < old(self).inputs().steps().back() ==> final(self).inputs().steps().back() == old(self).inputs().steps().back() - 1 && r is Some && (
            scalar_ops_obeyed::<R>() && old(self).curve().exact() ==> r == Some(
                old(self).curve().gen_spec(
                    old(self).inputs().steps().generator().gen_spec(
                        (old(self).inputs().steps().back() - 1) as usize,
                    ),
                ),
            )),
            old(self).inputs().steps().front() >= old(self).inputs().steps().back() ==> final(self).inputs().steps().back() == old(self).inputs().steps().back() && r is None,
    {
        match self.steps.next_back() {
            Some(x) => {
                proof {
                    assert(old(self).curve().accepts(x));
                }
                Some(self.curve.gen(x))
            },
            None => None,
        }
    }

    /// Lower and upper bound of the number of samples left; both are exact.
    pub fn size_hint(&self) -> (r: (usize, Option<usize>))
        ensures
            r.0 == self.inputs().steps().back() - self.inputs().steps().front(),
            r.1 == Some(r.0),
    {
        self.steps.size_hint()
    }
}

} // verus!
