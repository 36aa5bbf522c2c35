//! Bezier curves. Their evaluation has a performance of O(n^2), as their degree corresponds
//! with the number of elements.
use vstd::prelude::*;
use vstd::std_specs::ops::{SubSpec, MulSpec};
use core::marker::PhantomData;
use core::ops::{Add, Mul, Sub};
use crate::base::{Interpolation, Generator, DiscreteGenerator, Curve, Space, Workspace, gen_view};
use vstd::std_specs::ops::{AddSpec, DivSpec};
use crate::builder::Unknown;
use crate::scalar::{
    Scalar, merge, merge_spec, scalar_ops_defined, scalar_exact, scalar_ops_obeyed,
    element_ops_defined, element_ops_obeyed, scalar_of, scalar_from_usize, zero, one,
};

pub mod builder;
pub mod error;

pub use builder::{BezierBuilder, BezierDirector};
pub use error::{BezierError, Empty, TooSmallWorkspace};

verus! {

/// The points after `r` rounds of de Casteljau's algorithm.
pub open spec fn casteljau_level<E, R>(points: Seq<E>, x: R, r: nat) -> Seq<E>
    where
        E: Add<Output = E> + Mul<R, Output = E>,
        R: Scalar,
    decreases r,
{
    if r == 0 {
        points
    } else {
        let prev = casteljau_level(points, x, (r - 1) as nat);
        Seq::new((points.len() - r) as nat, |j: int| merge_spec(prev[j], prev[j + 1], x))
    }
}

/// The value of the bezier curve with the given control points at `x`.
pub open spec fn bezier_spec<E, R>(points: Seq<E>, x: R) -> E
    where
        E: Add<Output = E> + Mul<R, Output = E>,
        R: Scalar,
{
    casteljau_level(points, x, (points.len() - 1) as nat)[0]
}

/// The element operations needed for tangents and deriatives are defined.
pub open spec fn difference_ops_defined<E>() -> bool where E: Sub<Output = E> {
    forall|a: E, b: E| #[trigger] a.sub_req(b)
}

/// The element subtraction behaves as its specification says.
pub open spec fn difference_ops_obeyed<E>() -> bool where E: Sub<Output = E> {
    E::obeys_sub_spec()
}

/// The value and the tangent of the bezier curve with the given control points at `x`.
pub open spec fn bezier_tangent_spec<E, R>(points: Seq<E>, x: R) -> [E; 2]
    where
        E: Add<Output = E> + Mul<R, Output = E> + Sub<Output = E>,
        R: Scalar,
{
    if points.len() < 2 {
        [points[0], points[0].mul_spec(zero::<R>())]
    } else {
        let last = casteljau_level(points, x, (points.len() - 2) as nat);
        [
            merge_spec(last[0], last[1], x),
            last[1].sub_spec(last[0]).mul_spec(scalar_of::<R>((points.len() - 1) as nat)),
        ]
    }
}

/// Performs `rounds` rounds of de Casteljau's algorithm on the first `len` elements of the
/// workspace.
fn fold<E, R, W>(ws: &mut W, len: usize, rounds: usize, x: R)
    where
        E: Add<Output = E> + Mul<R, Output = E> + Copy,
        R: Scalar,
        W: Workspace<E>,
    requires
        rounds < len <= old(ws).buffer().len(),
        element_ops_defined::<E, R>(),
        scalar_ops_defined::<R>(),
    ensures
        final(ws).buffer().len() == old(ws).buffer().len(),
        element_ops_obeyed::<E, R>() && scalar_exact::<R>() ==> final(ws).buffer().subrange(
            0,
            len - rounds,
        ) == casteljau_level(old(ws).buffer().subrange(0, len as int), x, rounds as nat),
{
    let ghost points = ws.buffer().subrange(0, len as int);
    let ghost ex = element_ops_obeyed::<E, R>() && scalar_exact::<R>();
    let mut r: usize = 1;
    proof {
        assert(ws.buffer().subrange(0, len as int) == casteljau_level(points, x, 0));
    }
    while r <= rounds
        invariant
            rounds < len <= ws.buffer().len(),
            ws.buffer().len() == old(ws).buffer().len(),
            points == old(ws).buffer().subrange(0, len as int),
            element_ops_defined::<E, R>(),
            scalar_ops_defined::<R>(),
            ex == (element_ops_obeyed::<E, R>() && scalar_exact::<R>()),
            1 <= r <= rounds + 1,
            ex ==> ws.buffer().subrange(0, len - r + 1) == casteljau_level(
                points,
                x,
                (r - 1) as nat,
            ),
        decreases rounds + 1 - r,
    {
        let ghost prev = casteljau_level(points, x, (r - 1) as nat);
        let ghost next = casteljau_level(points, x, r as nat);
        let mut j: usize = 0;
        while j < len - r
            invariant
                rounds < len <= ws.buffer().len(),
                ws.buffer().len() == old(ws).buffer().len(),
                element_ops_defined::<E, R>(),
                scalar_ops_defined::<R>(),
                ex == (element_ops_obeyed::<E, R>() && scalar_exact::<R>()),
                points == old(ws).buffer().subrange(0, len as int),
                1 <= r <= rounds,
                j <= len - r,
                prev == casteljau_level(points, x, (r - 1) as nat),
                next == casteljau_level(points, x, r as nat),
                ex ==> forall|t: int| 0 <= t < j ==> #[trigger] ws.buffer()[t] == next[t],
                ex ==> forall|t: int| j <= t < len - r + 1 ==> #[trigger] ws.buffer()[t] == prev[t],
            decreases len - r - j,
        {
            let first = ws.read(j);
            let second = ws.read(j + 1);
            let merged = merge(first, second, x);
            proof {
                if ex {
                    assert(points.len() == len);
                    assert(next[j as int] == merge_spec(prev[j as int], prev[j + 1], x));
                    assert(merged == next[j as int]);
                }
            }
            ws.write(j, merged);
            j = j + 1;
        }
        proof {
            if ex {
                assert(ws.buffer().subrange(0, len - r) =~= next);
            }
        }
        r = r + 1;
    }
}

/// Bezier curve interpolation and extrapolation with the elements given.
///
/// This mutates the elements, such copying them first is necessary.
pub fn bezier<E, R, W>(elements: &mut W, scalar: R) -> (r: E)
    where
        E: Add<Output = E> + Mul<R, Output = E> + Copy,
        R: Scalar,
        W: Workspace<E>,
    requires
        old(elements).buffer().len() >= 1,
        element_ops_defined::<E, R>(),
        scalar_ops_defined::<R>(),
    ensures
        element_ops_obeyed::<E, R>() && scalar_exact::<R>() ==> r == bezier_spec(
            old(elements).buffer(),
            scalar,
        ),
{
    let len = elements.size();
    fold(elements, len, len - 1, scalar);
    proof {
        assert(old(elements).buffer().subrange(0, len as int) =~= old(elements).buffer());
    }
    elements.read(0)
}

/// Value and tangent of the bezier curve whose control points are the first `len` elements of
/// the workspace.
fn tangent_prefix<E, R, W>(elements: &mut W, len: usize, scalar: R) -> (r: [E; 2])
    where
        E: Add<Output = E> + Mul<R, Output = E> + Sub<Output = E> + Copy,
        R: Scalar,
        W: Workspace<E>,
    requires
        1 <= len <= old(elements).buffer().len(),
        element_ops_defined::<E, R>(),
        difference_ops_defined::<E>(),
        scalar_ops_defined::<R>(),
    ensures
        final(elements).buffer().len() == old(elements).buffer().len(),
        element_ops_obeyed::<E, R>() && difference_ops_obeyed::<E>() && scalar_exact::<R>()
            ==> r == bezier_tangent_spec(old(elements).buffer().subrange(0, len as int), scalar),
{
    if len < 2 {
        let first = elements.read(0);
        return [first, first * R::from(0u8)];
    }
    fold(elements, len, len - 2, scalar);
    let first = elements.read(0);
    let second = elements.read(1);
    let degree = scalar_from_usize::<R>(len - 1);
    let tangent = (second - first) * degree;
    let result = merge(first, second, scalar);
    [result, tangent]
}

/// Bezier curve interpolation and tangent calculation with the elements given.
///
/// This mutates the elements, such copying them first is necessary.
pub fn bezier_with_tangent<E, R, W>(elements: &mut W, scalar: R) -> (r: [E; 2])
    where
        E: Add<Output = E> + Mul<R, Output = E> + Sub<Output = E> + Copy,
        R: Scalar,
        W: Workspace<E>,
    requires
        old(elements).buffer().len() >= 1,
        element_ops_defined::<E, R>(),
        difference_ops_defined::<E>(),
        scalar_ops_defined::<R>(),
    ensures
        element_ops_obeyed::<E, R>() && difference_ops_obeyed::<E>() && scalar_exact::<R>()
            ==> r == bezier_tangent_spec(old(elements).buffer(), scalar),
{
    let len = elements.size();
    proof {
        assert(old(elements).buffer().subrange(0, len as int) =~= old(elements).buffer());
    }
    tangent_prefix(elements, len, scalar)
}

/// The `r`-th forward differences of `points`.
pub open spec fn difference_level<E>(points: Seq<E>, r: nat) -> Seq<E>
    where
        E: Sub<Output = E>,
    decreases r,
{
    if r == 0 {
        points
    } else {
        let prev = difference_level(points, (r - 1) as nat);
        Seq::new((points.len() - r) as nat, |j: int| prev[j + 1].sub_spec(prev[j]))
    }
}

/// The product of the scalars `lo, lo + 1, ..., hi - 1`.
pub open spec fn scalar_product<R: Scalar>(lo: nat, hi: nat) -> R
    decreases hi,
{
    if hi <= lo {
        one::<R>()
    } else {
        scalar_product::<R>(lo, (hi - 1) as nat).mul_spec(scalar_of::<R>((hi - 1) as nat))
    }
}

/// The highest deriative computed when `count` values are asked of a curve of `len` points.
pub open spec fn highest_deriative(count: nat, len: nat) -> nat {
    if count - 1 < len - 1 {
        (count - 1) as nat
    } else {
        (len - 1) as nat
    }
}

/// The `k`-th entry of the value and deriatives of the bezier curve with the given control
/// points at `x`, when `count` entries are asked for: the value first, then the first,
/// second, ... deriative, and zero for deriatives of higher order than the curve's degree.
pub open spec fn bezier_deriative_spec<E, R>(points: Seq<E>, x: R, count: nat, k: nat) -> E
    where
        E: Add<Output = E> + Mul<R, Output = E> + Sub<Output = E>,
        R: Scalar,
{
    let len = points.len();
    let deg = highest_deriative(count, len);
    if k == 0 {
        bezier_spec(points, x)
    } else if k <= deg {
        difference_level(casteljau_level(points, x, (len - 1 - k) as nat), k)[0].mul_spec(
            scalar_product::<R>((len - k) as nat, len),
        )
    } else {
        casteljau_level(points, x, (len - deg - 1) as nat)[0].mul_spec(zero::<R>())
    }
}

/// A level of de Casteljau's algorithm has one point less per round.
pub proof fn lemma_casteljau_len<E, R>(points: Seq<E>, x: R, r: nat)
    where
        E: Add<Output = E> + Mul<R, Output = E>,
        R: Scalar,
    requires
        r <= points.len(),
    ensures
        casteljau_level(points, x, r).len() == points.len() - r,
    decreases r,
{
    if r > 0 {
        lemma_casteljau_len(points, x, (r - 1) as nat);
    }
}

/// One more round of de Casteljau's algorithm on a level gives the next level.
pub proof fn lemma_casteljau_step<E, R>(points: Seq<E>, x: R, r: nat)
    where
        E: Add<Output = E> + Mul<R, Output = E>,
        R: Scalar,
    requires
        r < points.len(),
    ensures
        casteljau_level(casteljau_level(points, x, r), x, 1) == casteljau_level(points, x, r + 1),
{
    lemma_casteljau_len(points, x, r);
    let q = casteljau_level(points, x, r);
    assert(casteljau_level(q, x, 0) == q);
    assert(casteljau_level(q, x, 1) =~= casteljau_level(points, x, r + 1));
}

/// Computes the `k`-th forward difference of the first `k + 1` elements into position `k`,
/// leaving the elements after it untouched.
fn difference_fold<E, W>(ws: &mut W, k: usize)
    where
        E: Sub<Output = E> + Copy,
        W: Workspace<E>,
    requires
        k < old(ws).buffer().len(),
        difference_ops_defined::<E>(),
    ensures
        final(ws).buffer().len() == old(ws).buffer().len(),
        forall|t: int| k < t < old(ws).buffer().len() ==> #[trigger] final(ws).buffer()[t] == old(ws).buffer()[t],
        difference_ops_obeyed::<E>() ==> final(ws).buffer()[k as int] == difference_level(
            old(ws).buffer().subrange(0, k + 1),
            k as nat,
        )[0],
{
    let ghost q = ws.buffer().subrange(0, k + 1);
    let ghost ex = difference_ops_obeyed::<E>();
    let size = ws.size();
    let mut r: usize = 1;
    while r <= k
        invariant
            k < ws.buffer().len(),
            size == ws.buffer().len(),
            ws.buffer().len() == old(ws).buffer().len(),
            q == old(ws).buffer().subrange(0, k + 1),
            difference_ops_defined::<E>(),
            ex == difference_ops_obeyed::<E>(),
            1 <= r <= k + 1,
            forall|t: int| k < t < old(ws).buffer().len() ==> #[trigger] ws.buffer()[t] == old(ws).buffer()[t],
            ex ==> forall|t: int| r - 1 <= t <= k ==> #[trigger] ws.buffer()[t] == difference_level(q, (r - 1) as nat)[t - (r - 1)],
        decreases k + 1 - r,
    {
        let ghost prev = difference_level(q, (r - 1) as nat);
        let ghost next = difference_level(q, r as nat);
        let mut j: usize = k;
        while j >= r
            invariant
                k < ws.buffer().len(),
                ws.buffer().len() == old(ws).buffer().len(),
                q == old(ws).buffer().subrange(0, k + 1),
                difference_ops_defined::<E>(),
                ex == difference_ops_obeyed::<E>(),
                1 <= r <= k,
                r - 1 <= j <= k,
                prev == difference_level(q, (r - 1) as nat),
                next == difference_level(q, r as nat),
                forall|t: int| k < t < old(ws).buffer().len() ==> #[trigger] ws.buffer()[t] == old(ws).buffer()[t],
                ex ==> forall|t: int| j < t <= k ==> #[trigger] ws.buffer()[t] == next[t - r],
                ex ==> forall|t: int| r - 1 <= t <= j ==> #[trigger] ws.buffer()[t] == prev[t - (r - 1)],
            decreases j,
        {
            let high = ws.read(j);
            let low = ws.read(j - 1);
            let diff = high - low;
            proof {
                if ex {
                    assert(q.len() == k + 1);
                    assert(next[j - r] == prev[j - r + 1].sub_spec(prev[j - r]));
                }
            }
            ws.write(j, diff);
            j = j - 1;
        }
        r = r + 1;
    }
}


/// Copies the first `count` elements of `source` into `target`.
fn copy_prefix<E, V, W>(target: &mut V, source: &W, count: usize)
    where
        E: Copy,
        V: Workspace<E>,
        W: Workspace<E>,
    requires
        count <= old(target).buffer().len(),
        count <= source.buffer().len(),
    ensures
        final(target).buffer().len() == old(target).buffer().len(),
        final(target).buffer().subrange(0, count as int) == source.buffer().subrange(
            0,
            count as int,
        ),
        forall|t: int|
            count <= t < old(target).buffer().len() ==> #[trigger] final(target).buffer()[t]
                == old(target).buffer()[t],
{
    let mut i: usize = 0;
    while i < count
        invariant
            count <= target.buffer().len(),
            count <= source.buffer().len(),
            target.buffer().len() == old(target).buffer().len(),
            i <= count,
            forall|t: int| 0 <= t < i ==> #[trigger] target.buffer()[t] == source.buffer()[t],
            forall|t: int|
                count <= t < old(target).buffer().len() ==> #[trigger] target.buffer()[t]
                    == old(target).buffer()[t],
        decreases count - i,
    {
        let value = source.read(i);
        target.write(i, value);
        i = i + 1;
    }
    proof {
        assert(target.buffer().subrange(0, count as int) =~= source.buffer().subrange(
            0,
            count as int,
        ));
    }
}

/// The product of the scalars `lo, lo + 1, ..., hi - 1`.
fn product<R: Scalar>(lo: usize, hi: usize) -> (r: R)
    requires
        scalar_ops_defined::<R>(),
    ensures
        scalar_ops_obeyed::<R>() ==> r == scalar_product::<R>(lo as nat, hi as nat),
{
    let mut acc = R::from(1u8);
    let mut i = lo;
    if hi <= lo {
        return acc;
    }
    while i < hi
        invariant
            lo <= i <= hi,
            scalar_ops_defined::<R>(),
            scalar_ops_obeyed::<R>() ==> acc == scalar_product::<R>(lo as nat, i as nat),
        decreases hi - i,
    {
        let factor = scalar_from_usize::<R>(i);
        acc = acc * factor;
        i = i + 1;
    }
    acc
}

/// Value and deriatives of the bezier curve whose control points are the first `len` elements
/// of the workspace.
fn deriatives_prefix<E, R, W, const K: usize>(elements: &mut W, len: usize, scalar: R) -> (r: [E; K])
    where
        E: Add<Output = E> + Mul<R, Output = E> + Sub<Output = E> + Copy,
        R: Scalar,
        W: Workspace<E>,
    requires
        1 <= len <= old(elements).buffer().len(),
        element_ops_defined::<E, R>(),
        difference_ops_defined::<E>(),
        scalar_ops_defined::<R>(),
    ensures
        element_ops_obeyed::<E, R>() && difference_ops_obeyed::<E>() && scalar_exact::<R>()
            ==> forall|k: int|
            0 <= k < K ==> r@[k] == #[trigger] bezier_deriative_spec(
                old(elements).buffer().subrange(0, len as int),
                scalar,
                K as nat,
                k as nat,
            ),
{
    let size = elements.size();
    if K == 0 {
        let first = elements.read(0);
        return [first; K];
    }
    let deg = if K - 1 < len - 1 {
        K - 1
    } else {
        len - 1
    };
    let ghost points = old(elements).buffer().subrange(0, len as int);
    let ghost ex = element_ops_obeyed::<E, R>() && difference_ops_obeyed::<E>() && scalar_exact::<
        R,
    >();
    fold(elements, len, len - deg - 1, scalar);
    proof {
        assert(old(elements).buffer().subrange(0, len as int).subrange(0, len as int) =~= points);
        lemma_casteljau_len(points, scalar, (len - deg - 1) as nat);
    }
    let zero_element = elements.read(0) * R::from(0u8);
    let mut grad: [E; K] = [zero_element; K];
    copy_prefix(&mut grad, elements, deg + 1);
    let mut k = deg;
    while k >= 1
        invariant
            len <= elements.buffer().len(),
            size == elements.buffer().len(),
            points.len() == len,
            1 <= len,
            deg == highest_deriative(K as nat, len as nat),
            deg < K,
            k <= deg,
            element_ops_defined::<E, R>(),
            difference_ops_defined::<E>(),
            scalar_ops_defined::<R>(),
            ex == (element_ops_obeyed::<E, R>() && difference_ops_obeyed::<E>()
                && scalar_exact::<R>()),
            ex ==> elements.buffer().subrange(0, k + 1) == casteljau_level(
                points,
                scalar,
                (len - 1 - k) as nat,
            ),
            ex ==> grad@.subrange(0, k + 1) == casteljau_level(
                points,
                scalar,
                (len - 1 - k) as nat,
            ),
            ex ==> forall|t: int|
                k < t < K ==> #[trigger] grad@[t] == bezier_deriative_spec(
                    points,
                    scalar,
                    K as nat,
                    t as nat,
                ),
        decreases k,
    {
        let ghost level = casteljau_level(points, scalar, (len - 1 - k) as nat);
        difference_fold(&mut grad, k);
        let prod = product::<R>(len - k, len);
        let top = grad[k];
        grad[k] = top * prod;
        fold(elements, k + 1, 1, scalar);
        proof {
            if ex {
                lemma_casteljau_step(points, scalar, (len - 1 - k) as nat);
                assert(difference_level(level, k as nat)[0] == top);
            }
        }
        copy_prefix(&mut grad, elements, k);
        k = k - 1;
    }
    proof {
        if ex {
            assert(grad@[0] == bezier_deriative_spec(points, scalar, K as nat, 0));
        }
    }
    grad
}

/// Bezier curve interpolation and deriative calculation with the elements given.
///
/// Returns an array `[v, d1, d2, ...]` with `v` the interpolated value, `d1` the first
/// deriative and so on. Deriatives of a higher order than the degree of the curve are zero.
/// This mutates the elements, such copying them first is necessary.
pub fn bezier_with_deriatives<E, R, W, const K: usize>(elements: &mut W, scalar: R) -> (r: [E; K])
    where
        E: Add<Output = E> + Mul<R, Output = E> + Sub<Output = E> + Copy,
        R: Scalar,
        W: Workspace<E>,
    requires
        old(elements).buffer().len() >= 1,
        element_ops_defined::<E, R>(),
        difference_ops_defined::<E>(),
        scalar_ops_defined::<R>(),
    ensures
        element_ops_obeyed::<E, R>() && difference_ops_obeyed::<E>() && scalar_exact::<R>()
            ==> forall|k: int|
            0 <= k < K ==> r@[k] == #[trigger] bezier_deriative_spec(
                old(elements).buffer(),
                scalar,
                K as nat,
                k as nat,
            ),
{
    let len = elements.size();
    proof {
        assert(old(elements).buffer().subrange(0, len as int) =~= old(elements).buffer());
    }
    deriatives_prefix(elements, len, scalar)
}


/// Bezier curve with the given elements.
#[derive(Debug)]
pub struct Bezier<R, E, S> {
    elements: E,
    space: S,
    _input: PhantomData<R>,
}

impl<R, E, S> Bezier<R, E, S> {
    /// The elements of the curve.
    pub closed spec fn elements(&self) -> E {
        self.elements
    }

    /// The workspace of the curve.
    pub closed spec fn space(&self) -> S {
        self.space
    }
}

/// What creating a bezier curve of the given elements and workspace results in: an error if the
/// workspace has less room than there are elements, else an error if there are no elements,
/// else the curve of both.
pub open spec fn bezier_outcome<R, E, S>(
    r: Result<Bezier<R, E, S>, BezierError>,
    elements: E,
    space: S,
) -> bool where E: DiscreteGenerator, S: Space<E::Output> {
    &&& space.len_spec() < elements.len_spec() ==> (r matches Err(
        BezierError::TooSmallWorkspace(err),
    ) && err.found_spec() == space.len_spec() && err.necessary_spec() == elements.len_spec())
    &&& space.len_spec() >= elements.len_spec() && elements.len_spec() == 0 ==> (r matches Err(
        BezierError::Empty(_),
    ))
    &&& space.len_spec() >= elements.len_spec() && elements.len_spec() > 0 ==> (r matches Ok(b)
        && b.wf() && b.elements() == elements && b.space() == space)
}

impl<R, E, S> Bezier<R, E, S> where E: DiscreteGenerator, S: Space<E::Output> {
    /// The curve has at least one element and its workspace has room for all of them.
    pub open spec fn wf(&self) -> bool {
        &&& self.elements().len_spec() >= 1
        &&& self.space().len_spec() >= self.elements().len_spec()
    }

    /// Create a bezier curve.
    ///
    /// # Errors
    ///
    /// [`TooSmallWorkspace`] if the workspace has less room than there are elements.
    /// [`Empty`] if there are no elements.
    pub fn new(elements: E, space: S) -> (r: Result<Self, BezierError>)
        ensures
            bezier_outcome(r, elements, space),
    {
        let s = space.len();
        let e = elements.len();
        if s < e {
            return Err(BezierError::TooSmallWorkspace(TooSmallWorkspace::new(s, e)));
        }
        if elements.is_empty() {
            return Err(BezierError::Empty(Empty::new()));
        }
        Ok(Bezier { space, elements, _input: PhantomData })
    }

    /// Create a bezier curve without checks.
    pub fn new_unchecked(elements: E, space: S) -> (r: Self)
        ensures
            r.elements() == elements,
            r.space() == space,
    {
        Bezier { space, elements, _input: PhantomData }
    }

    /// Creates a workspace and copies all elements into it.
    fn workspace(&self) -> (r: S::Output)
        requires
            self.wf(),
        ensures
            r.buffer().len() == self.space().len_spec(),
            self.elements().exact() ==> r.buffer().subrange(0, self.elements().len_spec() as int)
                == gen_view(&self.elements()),
    {
        let mut workspace = self.space.workspace();
        let n = self.elements.len();
        let mut i: usize = 0;
        while i < n
            invariant
                self.wf(),
                n == self.elements().len_spec(),
                i <= n,
                workspace.buffer().len() == self.space().len_spec(),
                self.elements().exact() ==> forall|t: int|
                    0 <= t < i ==> #[trigger] workspace.buffer()[t] == gen_view(&self.elements())[t],
            decreases n - i,
        {
            proof {
                self.elements().lemma_accepts(i);
            }
            let value = self.elements.gen(i);
            workspace.write(i, value);
            i = i + 1;
        }
        proof {
            if self.elements().exact() {
                assert(workspace.buffer().subrange(0, n as int) =~= gen_view(&self.elements()));
            }
        }
        workspace
    }
}

impl<R, E, S> Generator<R> for Bezier<R, E, S> where
    E: DiscreteGenerator,
    E::Output: Add<Output = E::Output> + Mul<R, Output = E::Output> + Copy,
    S: Space<E::Output>,
    R: Scalar,
 {
    type Output = E::Output;

    open spec fn accepts(&self, input: R) -> bool {
        &&& self.wf()
        &&& element_ops_defined::<E::Output, R>()
        &&& scalar_ops_defined::<R>()
    }

    open spec fn gen_spec(&self, input: R) -> E::Output {
        bezier_spec(gen_view(&self.elements()), input)
    }

    open spec fn exact(&self) -> bool {
        &&& self.elements().exact()
        &&& element_ops_obeyed::<E::Output, R>()
        &&& scalar_exact::<R>()
    }

    fn gen(&self, scalar: R) -> (r: E::Output) {
        let mut workspace = self.workspace();
        let n = self.elements.len();
        fold(&mut workspace, n, n - 1, scalar);
        workspace.read(0)
    }
}

impl<R, E, S> Curve<R> for Bezier<R, E, S> where
    E: DiscreteGenerator,
    E::Output: Add<Output = E::Output> + Mul<R, Output = E::Output> + Copy,
    S: Space<E::Output>,
    R: Scalar,
 {
    open spec fn domain_spec(&self) -> [R; 2] {
        [zero::<R>(), one::<R>()]
    }

    open spec fn has_domain(&self) -> bool {
        true
    }

    /// The domain of the curve, `[0, 1]`.
    fn domain(&self) -> (r: [R; 2]) {
        [R::from(0u8), R::from(1u8)]
    }
}

impl<R, E, S> Bezier<R, E, S> where
    E: DiscreteGenerator,
    E::Output: Add<Output = E::Output> + Mul<R, Output = E::Output> + Sub<Output = E::Output> + Copy,
    S: Space<E::Output>,
    R: Scalar,
 {
    /// Generate the value and its tangent, in this order.
    pub fn gen_with_tangent(&self, scalar: R) -> (r: [E::Output; 2])
        requires
            self.wf(),
            element_ops_defined::<E::Output, R>(),
            difference_ops_defined::<E::Output>(),
            scalar_ops_defined::<R>(),
        ensures
            self.elements().exact() && element_ops_obeyed::<E::Output, R>()
                && difference_ops_obeyed::<E::Output>() && scalar_exact::<R>() ==> r
                == bezier_tangent_spec(gen_view(&self.elements()), scalar),
    {
        let mut workspace = self.workspace();
        let n = self.elements.len();
        tangent_prefix(&mut workspace, n, scalar)
    }

    /// Generate the value and its deriatives: first the value, then the first deriative, the
    /// second and so on.
    pub fn gen_with_deriatives<const K: usize>(&self, scalar: R) -> (r: [E::Output; K])
        requires
            self.wf(),
            element_ops_defined::<E::Output, R>(),
            difference_ops_defined::<E::Output>(),
            scalar_ops_defined::<R>(),
        ensures
            self.elements().exact() && element_ops_obeyed::<E::Output, R>()
                && difference_ops_obeyed::<E::Output>() && scalar_exact::<R>() ==> forall|k: int|
                0 <= k < K ==> r@[k] == #[trigger] bezier_deriative_spec(
                    gen_view(&self.elements()),
                    scalar,
                    K as nat,
                    k as nat,
                ),
    {
        let mut workspace = self.workspace();
        let n = self.elements.len();
        deriatives_prefix(&mut workspace, n, scalar)
    }
}

/// The first value of the tangent and of the deriatives is the value of the curve itself.
pub proof fn law_value_comes_first<E, R>(points: Seq<E>, x: R, count: nat)
    where
        E: Add<Output = E> + Mul<R, Output = E> + Sub<Output = E>,
        R: Scalar,
    requires
        points.len() >= 1,
    ensures
        bezier_tangent_spec(points, x)[0] == bezier_spec(points, x),
        bezier_deriative_spec(points, x, count, 0) == bezier_spec(points, x),
{
    if points.len() >= 2 {
        lemma_casteljau_len(points, x, (points.len() - 2) as nat);
        lemma_casteljau_len(points, x, (points.len() - 1) as nat);
    }
}

/// A bezier curve gives a value for every input as soon as it gives one for any input: sampling
/// never fails because of the input, outside of the domain the curve extrapolates.
pub proof fn law_bezier_samples_every_input<R, E, S>(curve: Bezier<R, E, S>, x: R, y: R) where
    E: DiscreteGenerator,
    E::Output: Add<Output = E::Output> + Mul<R, Output = E::Output> + Copy,
    S: Space<E::Output>,
    R: Scalar,

    requires
        curve.accepts(x),
    ensures
        curve.accepts(y),
{
}

/// The control points of the same curve with a degree one higher: the first and last point
/// stay, and the point `i` in between is `p[i - 1] * (i / m) + p[i] * (1 - i / m)` for `m`
/// points.
pub open spec fn elevate_spec<E, R>(points: Seq<E>) -> Seq<E>
    where
        E: Add<Output = E> + Mul<R, Output = E>,
        R: Scalar,
{
    let m = points.len();
    Seq::new(
        m + 1,
        |i: int|
            if i == 0 {
                points[0]
            } else if i == m {
                points[m - 1]
            } else {
                let f = scalar_of::<R>(i as nat).div_spec(scalar_of::<R>(m));
                points[i - 1].mul_spec(f).add_spec(points[i].mul_spec(one::<R>().sub_spec(f)))
            },
    )
}

/// Elevates the curve given by `source` such that its degree increases by one and writes the
/// control points into `target`, which needs room for one point more than `source` has.
pub fn bezier_elevate<E, R, W>(source: &[E], target: &mut W)
    where
        E: Add<Output = E> + Mul<R, Output = E> + Copy,
        R: Scalar,
        W: Workspace<E>,
    requires
        source@.len() >= 1,
        old(target).buffer().len() == source@.len() + 1,
        element_ops_defined::<E, R>(),
        scalar_ops_defined::<R>(),
    ensures
        final(target).buffer().len() == source@.len() + 1,
        element_ops_obeyed::<E, R>() && scalar_ops_obeyed::<R>() ==> final(target).buffer()
            == elevate_spec::<E, R>(source@),
{
    let m = source.len();
    let count = scalar_from_usize::<R>(m);
    let unit = R::from(1u8);
    let ghost ex = element_ops_obeyed::<E, R>() && scalar_ops_obeyed::<R>();
    let ghost expected = elevate_spec::<E, R>(source@);
    target.write(0, source[0]);
    target.write(m, source[m - 1]);
    let mut i: usize = 1;
    while i < m
        invariant
            1 <= i <= m,
            m == source@.len(),
            target.buffer().len() == m + 1,
            element_ops_defined::<E, R>(),
            scalar_ops_defined::<R>(),
            ex == (element_ops_obeyed::<E, R>() && scalar_ops_obeyed::<R>()),
            expected == elevate_spec::<E, R>(source@),
            ex ==> count == scalar_of::<R>(m as nat) && unit == one::<R>(),
            ex ==> forall|t: int| 0 <= t < i ==> #[trigger] target.buffer()[t] == expected[t],
            ex ==> target.buffer()[m as int] == expected[m as int],
        decreases m - i,
    {
        let f = scalar_from_usize::<R>(i) / count;
        let value = source[i - 1] * f + source[i] * (unit - f);
        target.write(i, value);
        i = i + 1;
    }
    proof {
        if ex {
            assert(target.buffer() =~= expected);
        }
    }
}

/// Elevates the curve given by `elements` in place such that its degree increases by one.
pub fn bezier_elevate_inplace<E, R>(elements: &mut Vec<E>)
    where
        E: Add<Output = E> + Mul<R, Output = E> + Copy,
        R: Scalar,
    requires
        old(elements)@.len() >= 1,
        old(elements)@.len() < usize::MAX,
        element_ops_defined::<E, R>(),
        scalar_ops_defined::<R>(),
    ensures
        final(elements)@.len() == old(elements)@.len() + 1,
        element_ops_obeyed::<E, R>() && scalar_ops_obeyed::<R>() ==> final(elements)@
            == elevate_spec::<E, R>(old(elements)@),
{
    let ghost source = elements@;
    let ghost ex = element_ops_obeyed::<E, R>() && scalar_ops_obeyed::<R>();
    let ghost expected = elevate_spec::<E, R>(source);
    let m = elements.len();
    let count = scalar_from_usize::<R>(m);
    let unit = R::from(1u8);
    let last = elements[m - 1];
    elements.push(last);
    let mut i: usize = m - 1;
    while i >= 1
        invariant
            0 <= i < m,
            m == source.len(),
            elements@.len() == m + 1,
            element_ops_defined::<E, R>(),
            scalar_ops_defined::<R>(),
            ex == (element_ops_obeyed::<E, R>() && scalar_ops_obeyed::<R>()),
            expected == elevate_spec::<E, R>(source),
            ex ==> count == scalar_of::<R>(m as nat) && unit == one::<R>(),
            forall|t: int| 0 <= t <= i ==> #[trigger] elements@[t] == source[t],
            ex ==> forall|t: int| i < t <= m ==> #[trigger] elements@[t] == expected[t],
        decreases i,
    {
        let f = scalar_from_usize::<R>(i) / count;
        let value = elements[i - 1] * f + elements[i] * (unit - f);
        elements.set(i, value);
        i = i - 1;
    }
    proof {
        if ex {
            assert(elements@ =~= expected);
        }
    }
}

/// The control points of the part of the curve from `x` to its end: the point `j` of `len`
/// points is the point `j` after `len - 1 - j` rounds of de Casteljau's algorithm.
pub open spec fn right_part_spec<E, R>(points: Seq<E>, x: R) -> Seq<E>
    where
        E: Add<Output = E> + Mul<R, Output = E>,
        R: Scalar,
{
    Seq::new(points.len(), |j: int| casteljau_level(points, x, (points.len() - 1 - j) as nat)[j])
}

/// The control points of the part of the curve from its start to `x`: the point `j` is the
/// first point after `j` rounds of de Casteljau's algorithm.
pub open spec fn left_part_spec<E, R>(points: Seq<E>, x: R) -> Seq<E>
    where
        E: Add<Output = E> + Mul<R, Output = E>,
        R: Scalar,
{
    Seq::new(points.len(), |j: int| casteljau_level(points, x, j as nat)[0])
}

/// Trims the curve given by its control points at `scalar`: afterwards the elements represent
/// the part of the curve from `scalar` to its end.
pub fn bezier_trim_left<E, R, W>(elements: &mut W, scalar: R)
    where
        E: Add<Output = E> + Mul<R, Output = E> + Copy,
        R: Scalar,
        W: Workspace<E>,
    requires
        element_ops_defined::<E, R>(),
        scalar_ops_defined::<R>(),
    ensures
        final(elements).buffer().len() == old(elements).buffer().len(),
        element_ops_obeyed::<E, R>() && scalar_ops_obeyed::<R>() ==> final(elements).buffer()
            == right_part_spec(old(elements).buffer(), scalar),
{
    let len = elements.size();
    if len == 0 {
        proof {
            assert(elements.buffer() =~= right_part_spec(elements.buffer(), scalar));
        }
        return;
    }
    let ghost points = elements.buffer();
    let ghost ex = element_ops_obeyed::<E, R>() && scalar_ops_obeyed::<R>();
    let mut r: usize = 1;
    while r < len
        invariant
            1 <= r <= len,
            len == points.len(),
            elements.buffer().len() == len,
            points == old(elements).buffer(),
            element_ops_defined::<E, R>(),
            scalar_ops_defined::<R>(),
            ex == (element_ops_obeyed::<E, R>() && scalar_ops_obeyed::<R>()),
            ex ==> forall|t: int|
                0 <= t < len - r + 1 ==> #[trigger] elements.buffer()[t] == casteljau_level(
                    points,
                    scalar,
                    (r - 1) as nat,
                )[t],
            ex ==> forall|t: int|
                len - r + 1 <= t < len ==> #[trigger] elements.buffer()[t] == casteljau_level(
                    points,
                    scalar,
                    (len - 1 - t) as nat,
                )[t],
        decreases len - r,
    {
        let ghost prev = casteljau_level(points, scalar, (r - 1) as nat);
        let ghost next = casteljau_level(points, scalar, r as nat);
        proof {
            lemma_casteljau_len(points, scalar, r as nat);
            lemma_casteljau_len(points, scalar, (r - 1) as nat);
        }
        let mut j: usize = 0;
        while j < len - r
            invariant
                1 <= r < len,
                j <= len - r,
                len == points.len(),
                elements.buffer().len() == len,
                element_ops_defined::<E, R>(),
                scalar_ops_defined::<R>(),
                ex == (element_ops_obeyed::<E, R>() && scalar_ops_obeyed::<R>()),
                prev == casteljau_level(points, scalar, (r - 1) as nat),
                next == casteljau_level(points, scalar, r as nat),
                prev.len() == len - r + 1,
                next.len() == len - r,
                ex ==> forall|t: int| 0 <= t < j ==> #[trigger] elements.buffer()[t] == next[t],
                ex ==> forall|t: int|
                    j <= t < len - r + 1 ==> #[trigger] elements.buffer()[t] == prev[t],
                ex ==> forall|t: int|
                    len - r + 1 <= t < len ==> #[trigger] elements.buffer()[t] == casteljau_level(
                        points,
                        scalar,
                        (len - 1 - t) as nat,
                    )[t],
            decreases len - r - j,
        {
            let first = elements.read(j);
            let second = elements.read(j + 1);
            let merged = merge(first, second, scalar);
            proof {
                if ex {
                    assert(next[j as int] == merge_spec(prev[j as int], prev[j + 1], scalar));
                }
            }
            elements.write(j, merged);
            j = j + 1;
        }
        proof {
            if ex {
                let t = len - r;
                assert(elements.buffer()[t as int] == prev[t as int]);
                assert((len - 1 - t) as nat == (r - 1) as nat);
            }
        }
        r = r + 1;
    }
    proof {
        if ex {
            assert(elements.buffer() =~= right_part_spec(points, scalar));
        }
    }
}

/// Trims the curve given by its control points at `scalar`: afterwards the elements represent
/// the part of the curve from its start to `scalar`.
pub fn bezier_trim_right<E, R, W>(elements: &mut W, scalar: R)
    where
        E: Add<Output = E> + Mul<R, Output = E> + Copy,
        R: Scalar,
        W: Workspace<E>,
    requires
        element_ops_defined::<E, R>(),
        scalar_ops_defined::<R>(),
    ensures
        final(elements).buffer().len() == old(elements).buffer().len(),
        element_ops_obeyed::<E, R>() && scalar_ops_obeyed::<R>() ==> final(elements).buffer()
            == left_part_spec(old(elements).buffer(), scalar),
{
    let len = elements.size();
    if len == 0 {
        proof {
            assert(elements.buffer() =~= left_part_spec(elements.buffer(), scalar));
        }
        return;
    }
    let ghost points = elements.buffer();
    let ghost ex = element_ops_obeyed::<E, R>() && scalar_ops_obeyed::<R>();
    let mut r: usize = 1;
    while r < len
        invariant
            1 <= r <= len,
            len == points.len(),
            elements.buffer().len() == len,
            points == old(elements).buffer(),
            element_ops_defined::<E, R>(),
            scalar_ops_defined::<R>(),
            ex == (element_ops_obeyed::<E, R>() && scalar_ops_obeyed::<R>()),
            ex ==> forall|t: int|
                0 <= t < r ==> #[trigger] elements.buffer()[t] == casteljau_level(
                    points,
                    scalar,
                    t as nat,
                )[0],
            ex ==> forall|t: int|
                r - 1 <= t < len ==> #[trigger] elements.buffer()[t] == casteljau_level(
                    points,
                    scalar,
                    (r - 1) as nat,
                )[t - (r - 1)],
        decreases len - r,
    {
        let ghost prev = casteljau_level(points, scalar, (r - 1) as nat);
        let ghost next = casteljau_level(points, scalar, r as nat);
        proof {
            lemma_casteljau_len(points, scalar, r as nat);
            lemma_casteljau_len(points, scalar, (r - 1) as nat);
        }
        let mut i: usize = len - 1;
        while i >= r
            invariant
                1 <= r < len,
                r - 1 <= i < len,
                len == points.len(),
                elements.buffer().len() == len,
                element_ops_defined::<E, R>(),
                scalar_ops_defined::<R>(),
                ex == (element_ops_obeyed::<E, R>() && scalar_ops_obeyed::<R>()),
                prev == casteljau_level(points, scalar, (r - 1) as nat),
                next == casteljau_level(points, scalar, r as nat),
                prev.len() == len - r + 1,
                next.len() == len - r,
                ex ==> forall|t: int|
                    0 <= t < r ==> #[trigger] elements.buffer()[t] == casteljau_level(
                        points,
                        scalar,
                        t as nat,
                    )[0],
                ex ==> forall|t: int|
                    r - 1 <= t <= i ==> #[trigger] elements.buffer()[t] == prev[t - (r - 1)],
                ex ==> forall|t: int| i < t < len ==> #[trigger] elements.buffer()[t] == next[t - r],
            decreases i,
        {
            let first = elements.read(i - 1);
            let second = elements.read(i);
            let merged = merge(first, second, scalar);
            proof {
                if ex {
                    assert(next[i - r] == merge_spec(prev[i - r], prev[i - r + 1], scalar));
                }
            }
            elements.write(i, merged);
            i = i - 1;
        }
        proof {
            if ex {
                assert(elements.buffer()[r as int] == next[0]);
            }
        }
        r = r + 1;
    }
    proof {
        if ex {
            assert(elements.buffer() =~= left_part_spec(points, scalar));
        }
    }
}

/// Trimming at `x` keeps the outer control points, and both parts meet at the value of the
/// curve at `x`: the left part ends and the right part starts there.
pub proof fn law_trimmed_parts_meet<E, R>(points: Seq<E>, x: R)
    where
        E: Add<Output = E> + Mul<R, Output = E>,
        R: Scalar,
    requires
        points.len() >= 1,
    ensures
        left_part_spec(points, x)[0] == points[0],
        right_part_spec(points, x)[points.len() - 1] == points[points.len() - 1],
        left_part_spec(points, x)[points.len() - 1] == bezier_spec(points, x),
        right_part_spec(points, x)[0] == bezier_spec(points, x),
{
}


impl<R, E, S> Interpolation<R> for Bezier<R, E, S> where
    E: DiscreteGenerator,
    E::Output: Add<Output = E::Output> + Mul<R, Output = E::Output> + Copy,
    S: Space<E::Output>,
    R: Scalar,
 {
}

/// Where the checked constructor succeeds, the unchecked one gives the same curve: it only
/// leaves out the checks.
pub proof fn law_unchecked_bezier_is_checked<R, E, S>(
    elements: E,
    space: S,
    checked: Result<Bezier<R, E, S>, BezierError>,
    unchecked: Bezier<R, E, S>,
) where E: DiscreteGenerator, S: Space<E::Output>
    requires
        bezier_outcome(checked, elements, space),
        unchecked.elements() == elements,
        unchecked.space() == space,
    ensures
        checked matches Ok(b) ==> b == unchecked && unchecked.wf(),
{
    if let Ok(b) = checked {
        assert(b.elements == unchecked.elements);
        assert(b.space == unchecked.space);
        assert(b._input == unchecked._input);
    }
}

/// Every deriative up to the degree of the curve is computed: for a curve of `n + 1` points and
/// `1 <= k <= n` with `k` below the number of entries asked for, the `k`-th entry is
/// `n! / (n - k)!` times the `k`-th forward difference of the points after `n - k` rounds of de
/// Casteljau's algorithm. Only entries of a higher order than the degree are zero multiples.
pub proof fn law_deriatives_up_to_degree<E, R>(points: Seq<E>, x: R, count: nat, k: nat)
    where
        E: Add<Output = E> + Mul<R, Output = E> + Sub<Output = E>,
        R: Scalar,
    requires
        points.len() >= 1,
        k < count,
    ensures
        1 <= k < points.len() ==> bezier_deriative_spec(points, x, count, k) == difference_level(
            casteljau_level(points, x, (points.len() - 1 - k) as nat),
            k,
        )[0].mul_spec(scalar_product::<R>((points.len() - k) as nat, points.len())),
        k >= points.len() ==> bezier_deriative_spec(points, x, count, k) == points[0].mul_spec(
            zero::<R>(),
        ),
{
}

/// Each round of de Casteljau's algorithm at zero starts with the first point, wherever merging
/// with factor zero gives the first element.
proof fn lemma_casteljau_at_zero<E, R>(points: Seq<E>, r: nat)
    where
        E: Add<Output = E> + Mul<R, Output = E>,
        R: Scalar,
    requires
        r < points.len(),
        forall|a: E, b: E| #[trigger] merge_spec(a, b, zero::<R>()) == a,
    ensures
        casteljau_level(points, zero::<R>(), r)[0] == points[0],
    decreases r,
{
    lemma_casteljau_len(points, zero::<R>(), r);
    if r > 0 {
        lemma_casteljau_at_zero::<E, R>(points, (r - 1) as nat);
        lemma_casteljau_len(points, zero::<R>(), (r - 1) as nat);
        let prev = casteljau_level(points, zero::<R>(), (r - 1) as nat);
        assert(merge_spec(prev[0], prev[1], zero::<R>()) == prev[0]);
    }
}

/// Each round of de Casteljau's algorithm at one ends with the last point, wherever merging
/// with factor one gives the second element.
proof fn lemma_casteljau_at_one<E, R>(points: Seq<E>, r: nat)
    where
        E: Add<Output = E> + Mul<R, Output = E>,
        R: Scalar,
    requires
        r < points.len(),
        forall|a: E, b: E| #[trigger] merge_spec(a, b, one::<R>()) == b,
    ensures
        casteljau_level(points, one::<R>(), r)[points.len() - 1 - r] == points[points.len() - 1],
    decreases r,
{
    lemma_casteljau_len(points, one::<R>(), r);
    if r > 0 {
        lemma_casteljau_at_one::<E, R>(points, (r - 1) as nat);
        lemma_casteljau_len(points, one::<R>(), (r - 1) as nat);
        let prev = casteljau_level(points, one::<R>(), (r - 1) as nat);
        let j = points.len() - 1 - r;
        assert(merge_spec(prev[j], prev[j + 1], one::<R>()) == prev[j + 1]);
    }
}

/// A bezier curve starts at its first control point and ends at its last: its value at zero
/// is the first point and at one the last, wherever merging with factor zero (one) gives the
/// first (second) element.
pub proof fn law_bezier_meets_end_points<E, R>(points: Seq<E>)
    where
        E: Add<Output = E> + Mul<R, Output = E>,
        R: Scalar,
    requires
        points.len() >= 1,
        forall|a: E, b: E| #[trigger] merge_spec(a, b, zero::<R>()) == a,
        forall|a: E, b: E| #[trigger] merge_spec(a, b, one::<R>()) == b,
    ensures
        bezier_spec(points, zero::<R>()) == points[0],
        bezier_spec(points, one::<R>()) == points[points.len() - 1],
{
    lemma_casteljau_at_zero::<E, R>(points, (points.len() - 1) as nat);
    lemma_casteljau_at_one::<E, R>(points, (points.len() - 1) as nat);
}

} // verus!
