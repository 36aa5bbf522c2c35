//! Knot adaptors used by the clamped and legacy modes of the bspline builder.
use vstd::prelude::*;
use vstd::std_specs::cmp::PartialOrdIs;
use crate::base::{Generator, DiscreteGenerator, SortedGenerator, gen_view};
use crate::base::list::{is_partition_point, monotone_below};
use crate::builder::TooFewElements;
use crate::scalar::order_obeyed;

verus! {

/// The index of the inner generator an index of a border buffer with `n` repetitions on both
/// sides of `len` inner elements reads from.
pub open spec fn buffered_index(index: int, n: int, len: int) -> int {
    if index < n {
        0
    } else if index - n >= len {
        len - 1
    } else {
        index - n
    }
}

/// Discrete generator adaptor which repeats its first and last element `n` more times.
///
/// A buffer around an empty generator is empty.
#[derive(Debug)]
pub struct BorderBuffer<G: DiscreteGenerator> {
    inner: G,
    n: usize,
}

impl<G: DiscreteGenerator> BorderBuffer<G> {
    /// The generator whose borders are repeated.
    pub closed spec fn inner(&self) -> G {
        self.inner
    }

    /// The number of repetitions on each side.
    pub closed spec fn n(&self) -> usize {
        self.n
    }
}

impl<G: DiscreteGenerator> BorderBuffer<G> {
    #[verifier::type_invariant]
    spec fn fits(&self) -> bool {
        self.inner.len_spec() + 2 * self.n <= usize::MAX
    }

    /// Creates a generator which repeats the first and last element of the given generator `n`
    /// more times.
    pub fn new(inner: G, n: usize) -> (r: Self)
        requires
            inner.len_spec() + 2 * n <= usize::MAX,
        ensures
            r.inner() == inner,
            r.n() == n,
    {
        BorderBuffer { inner, n }
    }

    /// The index of the inner generator the given index reads from.
    fn map_into(&self, index: usize) -> (r: usize)
        requires
            self.inner().len_spec() > 0,
        ensures
            r == buffered_index(index as int, self.n() as int, self.inner().len_spec() as int),
    {
        proof {
            use_type_invariant(self);
        }
        let len = self.inner.len();
        if index < self.n {
            return 0;
        }
        if index - self.n >= len {
            return len - 1;
        }
        index - self.n
    }
}

impl<G: DiscreteGenerator> Generator<usize> for BorderBuffer<G> {
    type Output = G::Output;

    open spec fn accepts(&self, input: usize) -> bool {
        self.inner().len_spec() > 0
    }

    open spec fn gen_spec(&self, input: usize) -> G::Output {
        self.inner().gen_spec(
            buffered_index(input as int, self.n() as int, self.inner().len_spec() as int) as usize,
        )
    }

    open spec fn exact(&self) -> bool {
        self.inner().exact()
    }

    fn gen(&self, input: usize) -> (r: G::Output) {
        let index = self.map_into(input);
        proof {
            self.inner().lemma_accepts(index);
        }
        self.inner.gen(index)
    }
}

impl<G: DiscreteGenerator> DiscreteGenerator for BorderBuffer<G> {
    open spec fn len_spec(&self) -> nat {
        if self.inner().len_spec() == 0 {
            0
        } else {
            self.inner().len_spec() + 2 * (self.n() as nat)
        }
    }

    proof fn lemma_accepts(&self, i: usize) {
    }

    fn len(&self) -> (r: usize) {
        proof {
            use_type_invariant(self);
        }
        let len = self.inner.len();
        if len == 0 {
            0
        } else {
            len + 2 * self.n
        }
    }
}

impl<G: SortedGenerator> SortedGenerator for BorderBuffer<G> {
    fn strict_upper_bound_clamped(&self, element: Self::Output, min: usize, max: usize) -> (r:
        usize) where Self::Output: PartialOrd + Copy {
        if min == max {
            return min;
        }
        let first = self.map_into(min);
        let last = self.map_into(max - 1);
        proof {
            use_type_invariant(self);
            let len = self.inner().len_spec() as int;
            let n = self.n() as int;
            let outer = gen_view(self);
            let inner = gen_view(&self.inner());
            if self.exact() && order_obeyed::<Self::Output>() && monotone_below(
                outer,
                element,
                min as int,
                max as int,
            ) {
                assert forall|i: int, j: int|
                    #![trigger inner[i], inner[j]]
                    first <= i <= j < last + 1 && element.is_ge(&inner[j]) implies element.is_ge(
                        &inner[i],
                    ) by {
                    let ti = if i == first { min as int } else { i + n };
                    let tj = if j == last { max - 1 } else { j + n };
                    assert(outer[ti] == inner[i]);
                    assert(outer[tj] == inner[j]);
                }
            }
        }
        let q = self.inner.strict_upper_bound_clamped(element, first, last + 1);
        let r = if q == first {
            min
        } else if q == last + 1 {
            max
        } else {
            q + self.n
        };
        proof {
            let len = self.inner().len_spec() as int;
            let n = self.n() as int;
            let outer = gen_view(self);
            let inner = gen_view(&self.inner());
            if self.exact() && order_obeyed::<Self::Output>() && monotone_below(
                outer,
                element,
                min as int,
                max as int,
            ) {
                assert forall|t: int| #![trigger outer[t]] min <= t < max implies (
                element.is_ge(&outer[t]) <==> t < r) by {
                    let c = buffered_index(t, n, len);
                    assert(outer[t] == inner[c]);
                }
            }
        }
        r
    }
}

/// Discrete generator adaptor which ignores the first and last element.
#[derive(Debug)]
pub struct BorderDeletion<G: DiscreteGenerator> {
    inner: G,
}

impl<G: DiscreteGenerator> BorderDeletion<G> {
    /// The generator whose borders are ignored.
    pub closed spec fn inner(&self) -> G {
        self.inner
    }
}

impl<G: DiscreteGenerator> BorderDeletion<G> {
    #[verifier::type_invariant]
    spec fn has_borders(&self) -> bool {
        2 <= self.inner.len_spec() <= usize::MAX
    }

    /// Creates a generator which ignores the first and last element of the given one.
    ///
    /// # Errors
    ///
    /// [`TooFewElements`] if the given generator has less than two elements.
    pub fn new(inner: G) -> (r: Result<Self, TooFewElements>)
        ensures
            inner.len_spec() < 2 <==> r is Err,
            r matches Err(e) ==> e.found_spec() == inner.len_spec(),
            r matches Ok(d) ==> d.inner() == inner,
    {
        let len = inner.len();
        if len < 2 {
            return Err(TooFewElements::new(len));
        }
        Ok(BorderDeletion { inner })
    }
}

impl<G: DiscreteGenerator> Generator<usize> for BorderDeletion<G> {
    type Output = G::Output;

    open spec fn accepts(&self, input: usize) -> bool {
        input + 1 < self.inner().len_spec()
    }

    open spec fn gen_spec(&self, input: usize) -> G::Output {
        self.inner().gen_spec((input + 1) as usize)
    }

    open spec fn exact(&self) -> bool {
        self.inner().exact()
    }

    fn gen(&self, input: usize) -> (r: G::Output) {
        proof {
            use_type_invariant(self);
            self.inner().lemma_accepts((input + 1) as usize);
        }
        self.inner.gen(input + 1)
    }
}

impl<G: DiscreteGenerator> DiscreteGenerator for BorderDeletion<G> {
    open spec fn len_spec(&self) -> nat {
        if self.inner().len_spec() >= 2 {
            (self.inner().len_spec() - 2) as nat
        } else {
            0
        }
    }

    proof fn lemma_accepts(&self, i: usize) {
    }

    fn len(&self) -> (r: usize) {
        proof {
            use_type_invariant(self);
        }
        self.inner.len() - 2
    }
}

impl<G: SortedGenerator> SortedGenerator for BorderDeletion<G> {
    fn strict_upper_bound_clamped(&self, element: Self::Output, min: usize, max: usize) -> (r:
        usize) where Self::Output: PartialOrd + Copy {
        proof {
            use_type_invariant(self);
            let outer = gen_view(self);
            let inner = gen_view(&self.inner());
            if self.exact() && order_obeyed::<Self::Output>() && monotone_below(
                outer,
                element,
                min as int,
                max as int,
            ) {
                assert forall|i: int, j: int|
                    #![trigger inner[i], inner[j]]
                    min + 1 <= i <= j < max + 1 && element.is_ge(&inner[j]) implies element.is_ge(
                        &inner[i],
                    ) by {
                    assert(outer[i - 1] == inner[i]);
                    assert(outer[j - 1] == inner[j]);
                }
            }
        }
        let q = self.inner.strict_upper_bound_clamped(element, min + 1, max + 1);
        proof {
            let outer = gen_view(self);
            let inner = gen_view(&self.inner());
            if self.exact() && order_obeyed::<Self::Output>() && monotone_below(
                outer,
                element,
                min as int,
                max as int,
            ) {
                assert forall|t: int| #![trigger outer[t]] min <= t < max implies (
                element.is_ge(&outer[t]) <==> t < q - 1) by {
                    assert(outer[t] == inner[t + 1]);
                }
            }
        }
        q - 1
    }
}

/// The knots of a border buffer are the inner knots with the first one repeated `n` more
/// times in front and the last one `n` more times at the end.
pub proof fn law_border_buffer_knots<G: DiscreteGenerator>(buffer: BorderBuffer<G>)
    requires
        buffer.inner().len_spec() > 0,
        buffer.inner().len_spec() + 2 * buffer.n() <= usize::MAX,
    ensures
        ({
            let inner = gen_view(&buffer.inner());
            let n = buffer.n() as nat;
            gen_view(&buffer) == Seq::new(n, |i: int| inner[0]) + inner + Seq::new(
                n,
                |i: int| inner[inner.len() - 1],
            )
        }),
{
    let inner = gen_view(&buffer.inner());
    let n = buffer.n() as nat;
    let expected = Seq::new(n, |i: int| inner[0]) + inner + Seq::new(
        n,
        |i: int| inner[inner.len() - 1],
    );
    let outer = gen_view(&buffer);
    assert(outer.len() == expected.len());
    assert forall|i: int| 0 <= i < outer.len() implies outer[i] == expected[i] by {
        let len = inner.len() as int;
        assert(outer[i] == buffer.gen_spec(i as usize));
        assert(outer[i] == buffer.inner().gen_spec(buffered_index(i, n as int, len) as usize));
        if i < n {
            assert(expected[i] == inner[0]);
        } else if i < n + len {
            assert(expected[i] == inner[i - n]);
        } else {
            assert(expected[i] == inner[len - 1]);
        }
    }
    assert(outer =~= expected);
}

/// The knots of a border deletion are the inner knots without the first and the last one.
pub proof fn law_border_deletion_knots<G: DiscreteGenerator>(deletion: BorderDeletion<G>)
    requires
        2 <= deletion.inner().len_spec() <= usize::MAX,
    ensures
        gen_view(&deletion) == gen_view(&deletion.inner()).subrange(
            1,
            deletion.inner().len_spec() - 1,
        ),
{
    let outer = gen_view(&deletion);
    let inner = gen_view(&deletion.inner());
    let expected = inner.subrange(1, deletion.inner().len_spec() - 1);
    assert(outer.len() == expected.len());
    assert forall|i: int| 0 <= i < outer.len() implies outer[i] == expected[i] by {
        assert(outer[i] == deletion.gen_spec(i as usize));
        assert(outer[i] == deletion.inner().gen_spec((i + 1) as usize));
        assert(expected[i] == inner[i + 1]);
    }
    assert(outer =~= expected);
}

} // verus!
