//! Scalar and element arithmetic used by the interpolations.
//!
//! Interpolations work on elements `E` which can be added and scaled by a scalar `R`.
//! The operations are the ones of `core::ops`; their meaning in contracts is given by the
//! specification functions vstd attaches to these traits.
use vstd::prelude::*;
use vstd::std_specs::ops::{AddSpec, MulSpec, SubSpec, DivSpec, NegSpec};
use vstd::std_specs::convert::FromSpec;
use vstd::std_specs::cmp::{PartialEqSpec, PartialOrdSpec};
use core::ops::{Add, Mul, Sub, Div, Neg};

verus! {

/// Real-number-like scalars: copyable, ordered, closed under the four arithmetic operations
/// and containing the small naturals (`From<u8>`). `f32` and `f64` are scalars.
pub trait Scalar: Copy + PartialOrd + Add<Output = Self> + Sub<Output = Self> + Mul<
    Output = Self,
> + Div<Output = Self> + Neg<Output = Self> + From<u8> {

}

impl<T> Scalar for T where
    T: Copy + PartialOrd + Add<Output = T> + Sub<Output = T> + Mul<Output = T> + Div<
        Output = T,
    > + Neg<Output = T> + From<u8>,
 {

}

/// Negation of scalars is defined for all inputs.
pub open spec fn negation_defined<R: Scalar>() -> bool {
    forall|a: R| #[trigger] a.neg_req()
}

/// Negation of scalars behaves as its specification says.
pub open spec fn negation_obeyed<R: Scalar>() -> bool {
    R::obeys_neg_spec()
}

/// The laws of real-number arithmetic which moving an input from one interval onto another
/// rests on: multiplication distributes over addition and subtraction, zero absorbs products,
/// adding a negation subtracts, adding a difference undoes the subtraction, sums may be
/// regrouped, and multiplying a nonzero number with a quotient by it cancels the division.
pub open spec fn interval_laws<R: Scalar>() -> bool {
    &&& forall|a: R, b: R, m: R|
        #[trigger] a.mul_spec(m).add_spec(b.mul_spec(m)) == a.add_spec(b).mul_spec(m)
    &&& forall|a: R, b: R, m: R|
        #[trigger] a.mul_spec(m).sub_spec(b.mul_spec(m)) == a.sub_spec(b).mul_spec(m)
    &&& forall|a: R| #[trigger] a.add_spec(a.neg_spec()) == zero::<R>()
    &&& forall|m: R| #[trigger] zero::<R>().mul_spec(m) == zero::<R>()
    &&& forall|a: R, b: R| #[trigger] a.add_spec(b.neg_spec()) == a.sub_spec(b)
    &&& forall|a: R, b: R| #[trigger] a.add_spec(b.sub_spec(a)) == b
    &&& forall|a: R, b: R, c: R| #[trigger] a.add_spec(b.sub_spec(c)) == b.add_spec(a.sub_spec(c))
    &&& forall|y: R, z: R| y != zero::<R>() ==> #[trigger] y.mul_spec(z.div_spec(y)) == z
}

/// The laws of a commutative ring that expanding a product of polynomials rests on:
/// multiplication is associative and commutative and distributes over addition and
/// subtraction.
pub open spec fn ring_laws<R: Scalar>() -> bool {
    &&& forall|a: R, b: R, c: R| #[trigger] a.mul_spec(b).mul_spec(c) == a.mul_spec(b.mul_spec(c))
    &&& forall|a: R, b: R| #[trigger] a.mul_spec(b) == b.mul_spec(a)
    &&& forall|a: R, b: R, c: R|
        #[trigger] a.mul_spec(b.add_spec(c)) == a.mul_spec(b).add_spec(a.mul_spec(c))
    &&& forall|a: R, b: R, c: R|
        #[trigger] a.mul_spec(b.sub_spec(c)) == a.mul_spec(b).sub_spec(a.mul_spec(c))
}

/// The laws of counting with a scalar type: addition is associative and commutative, and
/// zero adds nothing.
pub open spec fn counting_laws<R>() -> bool where R: Add<Output = R> + From<u8> {
    &&& forall|a: R, b: R, c: R| #[trigger] a.add_spec(b).add_spec(c) == a.add_spec(b.add_spec(c))
    &&& forall|a: R, b: R| #[trigger] a.add_spec(b) == b.add_spec(a)
    &&& forall|a: R| #[trigger] R::from_spec(0u8).add_spec(a) == a
}

/// Counting in a scalar type: the scalar of zero is zero and the scalar of `n + 1` is the
/// scalar of `n` plus one, wherever addition is associative and commutative with zero as
/// neutral element. So the scalar of `n` is `1 + 1 + ... + 1`, `n` times.
pub proof fn law_scalar_of_counts<R>(n: nat) where R: Add<Output = R> + From<u8>
    requires
        counting_laws::<R>(),
    ensures
        scalar_of::<R>(0) == zero::<R>(),
        scalar_of::<R>(n + 1) == scalar_of::<R>(n).add_spec(one::<R>()),
    decreases n,
{
    let o = one::<R>();
    if n == 0 {
        reveal_with_fuel(scalar_of, 2);
        assert(zero::<R>().add_spec(zero::<R>()) == zero::<R>());
        assert(scalar_of::<R>(1) == zero::<R>().add_spec(zero::<R>()).add_spec(o));
    } else if n % 2 == 0 {
        assert((n + 1) / 2 == n / 2);
        assert(scalar_of::<R>(n) == scalar_of::<R>(n / 2).add_spec(scalar_of::<R>(n / 2)));
    } else {
        let m = n / 2;
        assert(n == 2 * m + 1);
        assert((n + 1) / 2 == m + 1);
        law_scalar_of_counts::<R>(m);
        let a = scalar_of::<R>(m);
        let b = a.add_spec(o);
        assert(scalar_of::<R>(m + 1) == b);
        assert(scalar_of::<R>(n + 1) == b.add_spec(b));
        assert(scalar_of::<R>(n) == a.add_spec(a).add_spec(o));
        // (a + 1) + (a + 1) == ((a + a) + 1) + 1
        assert(b.add_spec(b) == a.add_spec(o.add_spec(b)));
        assert(o.add_spec(b) == b.add_spec(o));
        assert(a.add_spec(b.add_spec(o)) == a.add_spec(b).add_spec(o));
        assert(a.add_spec(b) == a.add_spec(a.add_spec(o)));
        assert(a.add_spec(a).add_spec(o) == a.add_spec(a.add_spec(o)));
    }
}

/// Merging two elements with factor zero gives the first and with factor one the second,
/// wherever one minus zero is one and one minus one is zero, scaling by one keeps an element,
/// and an element scaled by zero adds nothing.
pub proof fn law_merge_ends<E, R>(a: E, b: E)
    where E: Add<Output = E> + Mul<R, Output = E>, R: Sub<Output = R> + From<u8>
    requires
        one::<R>().sub_spec(zero::<R>()) == one::<R>(),
        one::<R>().sub_spec(one::<R>()) == zero::<R>(),
        forall|e: E| #[trigger] e.mul_spec(one::<R>()) == e,
        forall|e: E, g: E| #[trigger] e.add_spec(g.mul_spec(zero::<R>())) == e,
        forall|e: E, g: E| #[trigger] e.mul_spec(zero::<R>()).add_spec(g) == g,
    ensures
        merge_spec(a, b, zero::<R>()) == a,
        merge_spec(a, b, one::<R>()) == b,
{
    assert(a.mul_spec(one::<R>()) == a);
    assert(a.add_spec(b.mul_spec(zero::<R>())) == a);
    assert(b.mul_spec(one::<R>()) == b);
    assert(a.mul_spec(zero::<R>()).add_spec(b) == b);
}

/// Stepping through equidistant knots: the step taken zero times is zero, and taken `i + 1`
/// times it is the step taken `i` times plus one more step, wherever scalars count, multiplying
/// distributes over addition, and scaling by one keeps and by zero annihilates. So the knots
/// `offset + step * i` go up by one step from each to the next.
#[verifier::spinoff_prover]
pub proof fn law_equidistant_steps<R: Scalar>(step: R, i: nat)
    requires
        counting_laws::<R>(),
        forall|a: R, b: R, c: R|
            #[trigger] a.mul_spec(b.add_spec(c)) == a.mul_spec(b).add_spec(a.mul_spec(c)),
        forall|a: R| #[trigger] a.mul_spec(one::<R>()) == a,
        forall|a: R| #[trigger] a.mul_spec(zero::<R>()) == zero::<R>(),
    ensures
        step.mul_spec(scalar_of::<R>(0)) == zero::<R>(),
        step.mul_spec(scalar_of::<R>(i + 1)) == step.mul_spec(scalar_of::<R>(i)).add_spec(step),
{
    let s = scalar_of::<R>(i);
    assert(scalar_of::<R>(i + 1) == s.add_spec(one::<R>())) by {
        law_scalar_of_counts::<R>(i);
    }
    assert(step.mul_spec(zero::<R>()) == zero::<R>());
    assert(step.mul_spec(s.add_spec(one::<R>())) == step.mul_spec(s).add_spec(
        step.mul_spec(one::<R>()),
    ));
    assert(step.mul_spec(one::<R>()) == step);
}

/// Comparisons of `T` behave as their specification says.
pub open spec fn order_obeyed<T: PartialOrd>() -> bool {
    T::obeys_partial_cmp_spec()
}

/// The scalar type behaves as the specifications of its operations, comparison and equality say.
pub open spec fn scalar_exact<R: Scalar>() -> bool {
    &&& scalar_ops_obeyed::<R>()
    &&& R::obeys_partial_cmp_spec()
    &&& R::obeys_eq_spec()
}

/// The scalar operations are defined for all inputs (they do not panic).
pub open spec fn scalar_ops_defined<R>() -> bool
    where R: Add<Output = R> + Sub<Output = R> + Mul<Output = R> + Div<Output = R>
{
    &&& forall|a: R, b: R| #[trigger] a.add_req(b)
    &&& forall|a: R, b: R| #[trigger] a.sub_req(b)
    &&& forall|a: R, b: R| #[trigger] a.mul_req(b)
    &&& forall|a: R, b: R| #[trigger] a.div_req(b)
}

/// The scalar operations behave as their specification functions say.
pub open spec fn scalar_ops_obeyed<R>() -> bool
    where R: Add<Output = R> + Sub<Output = R> + Mul<Output = R> + Div<Output = R> + From<u8>
{
    &&& R::obeys_add_spec()
    &&& R::obeys_sub_spec()
    &&& R::obeys_mul_spec()
    &&& R::obeys_div_spec()
    &&& <R as FromSpec<u8>>::obeys_from_spec()
}

/// The element operations (addition and scaling) are defined for all inputs.
pub open spec fn element_ops_defined<E, R>() -> bool
    where E: Add<Output = E> + Mul<R, Output = E>
{
    &&& forall|a: E, b: E| #[trigger] a.add_req(b)
    &&& forall|a: E, f: R| #[trigger] a.mul_req(f)
}

/// The element operations behave as their specification functions say.
pub open spec fn element_ops_obeyed<E, R>() -> bool
    where E: Add<Output = E> + Mul<R, Output = E>
{
    &&& E::obeys_add_spec()
    &&& E::obeys_mul_spec()
}

/// The scalar `n`, built from its binary digits: twice the scalar of `n / 2`, plus one if `n`
/// is odd.
pub open spec fn scalar_of<R>(n: nat) -> R
    where R: Add<Output = R> + From<u8>
    decreases n,
{
    if n == 0 {
        R::from_spec(0u8)
    } else {
        let half = scalar_of::<R>(n / 2);
        let double = half.add_spec(half);
        if n % 2 == 1 {
            double.add_spec(R::from_spec(1u8))
        } else {
            double
        }
    }
}

/// The scalar one.
pub open spec fn one<R: From<u8>>() -> R {
    R::from_spec(1u8)
}

/// The scalar zero.
pub open spec fn zero<R: From<u8>>() -> R {
    R::from_spec(0u8)
}

/// Linear interpolation between `a` and `b`: `a * (1 - f) + b * f`.
pub open spec fn merge_spec<E, R>(a: E, b: E, f: R) -> E
    where E: Add<Output = E> + Mul<R, Output = E>, R: Sub<Output = R> + From<u8>
{
    a.mul_spec(one::<R>().sub_spec(f)).add_spec(b.mul_spec(f))
}

/// Merges `a` and `b` with the factor `f`, that is `a * (1 - f) + b * f`.
pub fn merge<E, R>(a: E, b: E, f: R) -> (r: E)
    where
        E: Add<Output = E> + Mul<R, Output = E> + Copy,
        R: Add<Output = R> + Sub<Output = R> + Mul<Output = R> + Div<Output = R> + From<u8> + Copy,
    requires
        element_ops_defined::<E, R>(),
        scalar_ops_defined::<R>(),
    ensures
        element_ops_obeyed::<E, R>() && scalar_ops_obeyed::<R>() ==> r == merge_spec(a, b, f),
{
    let unit = R::from(1u8);
    a * (unit - f) + b * f
}

/// Converts a count into a scalar from its binary digits.
pub fn scalar_from_usize<R>(n: usize) -> (r: R)
    where R: Add<Output = R> + Sub<Output = R> + Mul<Output = R> + Div<Output = R> + From<u8> + Copy,
    requires
        scalar_ops_defined::<R>(),
    ensures
        scalar_ops_obeyed::<R>() ==> r == scalar_of::<R>(n as nat),
    decreases n,
{
    if n == 0 {
        return R::from(0u8);
    }
    let half = scalar_from_usize::<R>(n / 2);
    let double = half + half;
    if n % 2 == 1 {
        double + R::from(1u8)
    } else {
        double
    }
}

} // verus!
