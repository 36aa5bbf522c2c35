# enterpolation

Interpolations and curves — linear interpolation, bezier curves and bsplines, with weighted
(rational) variants — generic over the elements they interpolate and the scalars they take as
input. The library is written in Verus: its functions carry contracts which are proved.

## Layout

- `src/base`: the traits `Generator`, `DiscreteGenerator`, `SortedGenerator` and `Curve`, their
  implementations for arrays, vectors and slices, the binary searches over sorted knots, the
  adaptors (`Clamp`, `Slice`, `TransformInput`, `Stack`, `Composite`, `Repeat`, `Wrap`),
  equidistant knots, iteration and workspaces.
- `src/bezier`, `src/bspline`, `src/linear`: the curves, their builders and errors.
- `src/weights`: homogeneous elements and the adaptors for weighted curves.
- `src/easing`: easing functions.
- `src/scalar.rs`: the arithmetic the curves are generic over and its meaning in contracts.
- `app/`: what cannot be verified — error messages, serialisation and the floating point
  searches in equidistant knots.

## What the contracts say

Arithmetic on generic elements and scalars is described by the specification functions vstd
attaches to `core::ops`. A curve's `gen` returns its mathematical value (de Casteljau's
algorithm, de Boor's algorithm, linear merging at the found knot span) whenever the types obey
these specifications. vstd gives `f32` and `f64` neither such specifications nor the
preconditions of their operations, so a verified caller cannot establish
`scalar_ops_defined` for them: the contracts describe the computation for scalar types whose
operations are specified, and say nothing of floating point values, which the tests check.

The specifications vstd attaches to the operators name the operations without stating their
algebra. Properties that rest on it, such as where a slice or a clamped bspline starts and
ends, are proved under the real-number laws they need (`interval_laws` in `src/scalar.rs`, and
that merging with factor zero or one gives the first or second element), taken as hypotheses.

## Elements

Elements must implement `Add` with themselves and `Mul` with the scalar: every interpolation
merges two elements as `a * (1 - f) + b * f` through these operators, whose vstd
specifications the contracts speak of. An element that only implements the `Merge` trait of
`topology_traits` (re-exported by `app/`) cannot be interpolated here, as verified code cannot
call a method through an outside trait bound; such an element needs `Add` and `Mul` instead.
