//! Easing functions.
//!
//! Easing functions, in the context of this crate, are functions which take as only input a
//! real number in `[0, 1]` and return a real number in `[0, 1]`.
use vstd::prelude::*;
use vstd::std_specs::ops::{SubSpec, MulSpec, AddSpec};
use vstd::std_specs::convert::FromSpec;
use crate::base::{Generator, Curve};
use crate::scalar::{Scalar, scalar_ops_defined, scalar_ops_obeyed, scalar_exact, one, zero, ring_laws};

pub mod plateau;

pub use plateau::Plateau;

verus! {

/// Struct which wraps a function to ease.
#[derive(Debug, Copy, Clone)]
pub struct FuncEase<F> {
    func: F,
}

impl<F> FuncEase<F> {
    /// The wrapped function.
    pub closed spec fn func(&self) -> F {
        self.func
    }

    /// Create an easing from the given function.
    pub fn new(func: F) -> (r: Self)
        ensures
            r.func() == func,
    {
        FuncEase { func }
    }
}

impl<F, R> Generator<R> for FuncEase<F> where F: Fn(R) -> R {
    type Output = R;

    open spec fn accepts(&self, input: R) -> bool {
        call_requires(self.func(), (input,))
    }

    open spec fn gen_spec(&self, input: R) -> R {
        choose|y: R| call_ensures(self.func(), (input,), y)
    }

    /// The function returns at most one value for each input.
    open spec fn exact(&self) -> bool {
        forall|x: R, a: R, b: R|
            #![trigger call_ensures(self.func(), (x,), a), call_ensures(self.func(), (x,), b)]
            call_ensures(self.func(), (x,), a) && call_ensures(self.func(), (x,), b) ==> a == b
    }

    fn gen(&self, input: R) -> (r: R) {
        let r = (self.func)(input);
        proof {
            let y = choose|y: R| call_ensures(self.func(), (input,), y);
            assert(call_ensures(self.func(), (input,), y));
        }
        r
    }
}

impl<F, R> Curve<R> for FuncEase<F> where F: Fn(R) -> R, R: Scalar {
    open spec fn domain_spec(&self) -> [R; 2] {
        [zero::<R>(), one::<R>()]
    }

    /// The conversion of small naturals into scalars obeys its specification.
    open spec fn has_domain(&self) -> bool {
        <R as FromSpec<u8>>::obeys_from_spec()
    }

    /// The domain `[0, 1]`.
    fn domain(&self) -> (r: [R; 2]) {
        [R::from(0u8), R::from(1u8)]
    }
}

/// The identity as easing function.
#[derive(Debug, Copy, Clone, PartialEq, Eq, Structural)]
pub struct Identity {}

impl Identity {
    /// Create the identity.
    pub fn new() -> (r: Self)
        ensures
            r == (Identity {}),
    {
        Identity {}
    }
}

impl Default for Identity {
    fn default() -> (r: Self)
        ensures
            r == (Identity {}),
    {
        Self::new()
    }
}

impl<R> Generator<R> for Identity {
    type Output = R;

    open spec fn accepts(&self, input: R) -> bool {
        true
    }

    open spec fn gen_spec(&self, input: R) -> R {
        input
    }

    open spec fn exact(&self) -> bool {
        true
    }

    fn gen(&self, input: R) -> (r: R) {
        input
    }
}

impl<R: Scalar> Curve<R> for Identity {
    open spec fn domain_spec(&self) -> [R; 2] {
        [zero::<R>(), one::<R>()]
    }

    /// The conversion of small naturals into scalars obeys its specification.
    open spec fn has_domain(&self) -> bool {
        <R as FromSpec<u8>>::obeys_from_spec()
    }

    /// The domain `[0, 1]`.
    fn domain(&self) -> (r: [R; 2]) {
        [R::from(0u8), R::from(1u8)]
    }
}

/// The scalar `n`, converted from a small natural number.
pub open spec fn small<R: Scalar>(n: u8) -> R {
    R::from_spec(n)
}

/// `x` multiplied `n` times with itself, at least once.
pub open spec fn power<R: Scalar>(x: R, n: nat) -> R
    decreases n,
{
    if n <= 1 {
        x
    } else {
        power(x, (n - 1) as nat).mul_spec(x)
    }
}

/// `1 - x`.
pub open spec fn flip_spec<R: Scalar>(x: R) -> R {
    one::<R>().sub_spec(x)
}

/// `x * x * (3 - 2x)`.
pub open spec fn smoothstep_spec<R: Scalar>(x: R) -> R {
    x.mul_spec(x).mul_spec(small::<R>(3).sub_spec(small::<R>(2).mul_spec(x)))
}

/// `x * x * x * (x * (6x - 15) + 10)`.
pub open spec fn smootherstep_spec<R: Scalar>(x: R) -> R {
    x.mul_spec(x).mul_spec(x).mul_spec(
        x.mul_spec(x.mul_spec(small::<R>(6)).sub_spec(small::<R>(15))).add_spec(small::<R>(10)),
    )
}

/// Flips the input: `1 - x`.
pub fn flip<R: Scalar>(x: R) -> (r: R)
    requires
        scalar_ops_defined::<R>(),
    ensures
        scalar_ops_obeyed::<R>() ==> r == flip_spec(x),
{
    R::from(1u8) - x
}

/// Smooth start: `x` to the power of `N` (at least one).
pub fn smoothstart<R: Scalar, const N: usize>(x: R) -> (r: R)
    requires
        scalar_ops_defined::<R>(),
    ensures
        scalar_ops_obeyed::<R>() ==> r == power(x, N as nat),
{
    let mut mul = x;
    let mut i: usize = 1;
    while i < N
        invariant
            1 <= i <= if N == 0 {
                1
            } else {
                N
            },
            scalar_ops_defined::<R>(),
            scalar_ops_obeyed::<R>() ==> mul == power(x, i as nat),
        decreases N - i,
    {
        mul = mul * x;
        i = i + 1;
    }
    mul
}

/// Smooth end: the flipped smooth start of the flipped input.
pub fn smoothend<R: Scalar, const N: usize>(x: R) -> (r: R)
    requires
        scalar_ops_defined::<R>(),
    ensures
        scalar_ops_obeyed::<R>() ==> r == flip_spec(power(flip_spec(x), N as nat)),
{
    flip(smoothstart::<R, N>(flip(x)))
}

/// Smoothstep: `x * x * (3 - 2x)`.
pub fn smoothstep<R: Scalar>(x: R) -> (r: R)
    requires
        scalar_ops_defined::<R>(),
    ensures
        scalar_ops_obeyed::<R>() ==> r == smoothstep_spec(x),
{
    let two = R::from(2u8);
    let three = R::from(3u8);
    x * x * (three - two * x)
}

/// Smootherstep: `x * x * x * (x * (6x - 15) + 10)`.
pub fn smootherstep<R: Scalar>(x: R) -> (r: R)
    requires
        scalar_ops_defined::<R>(),
    ensures
        scalar_ops_obeyed::<R>() ==> r == smootherstep_spec(x),
{
    let six = R::from(6u8);
    let ten = R::from(10u8);
    let fifteen = R::from(15u8);
    x * x * x * (x * (x * six - fifteen) + ten)
}

/// Smootherstep is the polynomial `6x^5 - 15x^4 + 10x^3`, for every `x` of a scalar type whose
/// multiplication is associative, commutative and distributes over addition and subtraction.
pub proof fn law_smootherstep_polynomial<R: Scalar>(x: R)
    requires
        ring_laws::<R>(),
    ensures
        smootherstep_spec(x) == small::<R>(6).mul_spec(power(x, 5)).sub_spec(
            small::<R>(15).mul_spec(power(x, 4)),
        ).add_spec(small::<R>(10).mul_spec(power(x, 3))),
{
    reveal_with_fuel(power, 5);
    let six = small::<R>(6);
    let fifteen = small::<R>(15);
    let ten = small::<R>(10);
    let x3 = x.mul_spec(x).mul_spec(x);
    let x4 = x3.mul_spec(x);
    let x5 = x4.mul_spec(x);
    assert(power(x, 3) == x3);
    assert(power(x, 4) == x4);
    assert(power(x, 5) == x5);
    let a = x.mul_spec(six).sub_spec(fifteen);
    assert(x3.mul_spec(x.mul_spec(a).add_spec(ten)) == x3.mul_spec(x.mul_spec(a)).add_spec(
        x3.mul_spec(ten),
    ));
    assert(x3.mul_spec(x).mul_spec(a) == x3.mul_spec(x.mul_spec(a)));
    assert(x4.mul_spec(a) == x4.mul_spec(x.mul_spec(six)).sub_spec(x4.mul_spec(fifteen)));
    assert(x4.mul_spec(x).mul_spec(six) == x4.mul_spec(x.mul_spec(six)));
    assert(x5.mul_spec(six) == six.mul_spec(x5));
    assert(x4.mul_spec(fifteen) == fifteen.mul_spec(x4));
    assert(x3.mul_spec(ten) == ten.mul_spec(x3));
}

/// Smoothstep is the polynomial `3x^2 - 2x^3`, for every `x` of a scalar type whose
/// multiplication is associative, commutative and distributes over addition and subtraction.
pub proof fn law_smoothstep_polynomial<R: Scalar>(x: R)
    requires
        ring_laws::<R>(),
    ensures
        smoothstep_spec(x) == small::<R>(3).mul_spec(power(x, 2)).sub_spec(
            small::<R>(2).mul_spec(power(x, 3)),
        ),
{
    reveal_with_fuel(power, 3);
    let two = small::<R>(2);
    let three = small::<R>(3);
    let x2 = x.mul_spec(x);
    let x3 = x2.mul_spec(x);
    assert(power(x, 2) == x2);
    assert(power(x, 3) == x3);
    assert(x2.mul_spec(three.sub_spec(two.mul_spec(x))) == x2.mul_spec(three).sub_spec(
        x2.mul_spec(two.mul_spec(x)),
    ));
    assert(x2.mul_spec(three) == three.mul_spec(x2));
    assert(x2.mul_spec(two).mul_spec(x) == x2.mul_spec(two.mul_spec(x)));
    assert(x2.mul_spec(two) == two.mul_spec(x2));
    assert(two.mul_spec(x2).mul_spec(x) == two.mul_spec(x3));
}

/// The first power of `x` is `x`, and powers multiply by adding their exponents:
/// `x^(m + n) == x^m * x^n` for exponents of at least one, wherever multiplication is
/// associative.
pub proof fn law_power_adds_exponents<R: Scalar>(x: R, m: nat, n: nat)
    requires
        m >= 1,
        n >= 1,
        ring_laws::<R>(),
    ensures
        power(x, 1) == x,
        power(x, m + n) == power(x, m).mul_spec(power(x, n)),
    decreases n,
{
    if n == 1 {
        assert(power(x, m + 1) == power(x, m).mul_spec(x));
    } else {
        law_power_adds_exponents(x, m, (n - 1) as nat);
        assert(power(x, m + n) == power(x, (m + n - 1) as nat).mul_spec(x));
        assert(power(x, (m + n - 1) as nat) == power(x, m).mul_spec(power(x, (n - 1) as nat)));
        assert(power(x, m).mul_spec(power(x, (n - 1) as nat)).mul_spec(x) == power(x, m).mul_spec(
            power(x, (n - 1) as nat).mul_spec(x),
        ));
        assert(power(x, n) == power(x, (n - 1) as nat).mul_spec(x));
    }
}

/// Flipping twice gives the input back, and flipping exchanges zero and one, wherever
/// subtracting a difference undoes the subtraction and subtracting zero keeps a number.
pub proof fn law_flip_twice<R: Scalar>(x: R)
    requires
        forall|a: R, b: R| #[trigger] a.sub_spec(a.sub_spec(b)) == b,
        forall|a: R| #[trigger] a.sub_spec(zero::<R>()) == a,
    ensures
        flip_spec(flip_spec(x)) == x,
        flip_spec(zero::<R>()) == one::<R>(),
        flip_spec(one::<R>()) == zero::<R>(),
{
    assert(one::<R>().sub_spec(one::<R>().sub_spec(x)) == x);
    assert(one::<R>().sub_spec(zero::<R>()) == one::<R>());
    assert(one::<R>().sub_spec(one::<R>().sub_spec(zero::<R>())) == zero::<R>());
}

} // verus!
