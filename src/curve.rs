//! Bézier curves of degree one to four, each a value type holding its
//! control values.
use crate::basis::{bezier_terms, bezier_value, points, weights_hold, Bezier, BezierT, LinearCombination};
use core::ops::{Add, Sub};
use vstd::prelude::*;

verus! {

/// `d` added to itself until there are `n` copies, from the left:
/// `((d + d) + d) + ...`.
pub open spec fn repeated_sum<V: Add<Output = V>>(d: V, n: nat) -> V
    decreases n,
{
    if n <= 1 {
        d
    } else {
        vstd::std_specs::ops::AddSpec::add_spec(repeated_sum(d, (n - 1) as nat), d)
    }
}

/// Every addition that `repeated_sum(d, n)` makes is allowed.
pub open spec fn repeated_sum_defined<V: Add<Output = V>>(d: V, n: nat) -> bool
    decreases n,
{
    n <= 1 || (repeated_sum_defined(d, (n - 1) as nat) && vstd::std_specs::ops::AddSpec::add_req(repeated_sum(d, (n - 1) as nat), d))
}

/// The control values of the derivative of the Bézier curve with control
/// values `p`: `n (p[i + 1] - p[i])` for the degree `n`, the scaling made by
/// repeated addition.
pub open spec fn derivative_controls<V: Sub<Output = V> + Add<Output = V>>(p: Seq<V>) -> Seq<V> {
    Seq::new((p.len() - 1) as nat, |i: int| repeated_sum(vstd::std_specs::ops::SubSpec::sub_spec(p[i + 1], p[i]), (p.len() - 1) as nat))
}

/// Every subtraction and addition that `derivative_controls(p)` makes is allowed.
pub open spec fn derivative_defined<V: Sub<Output = V> + Add<Output = V>>(p: Seq<V>) -> bool {
    forall|i: int| 0 <= i < p.len() - 1 ==> #[trigger] derivative_step_defined(p, i)
}

/// The subtraction `p[i + 1] - p[i]` and the additions that scale it are allowed.
pub open spec fn derivative_step_defined<V: Sub<Output = V> + Add<Output = V>>(p: Seq<V>, i: int) -> bool {
    &&& vstd::std_specs::ops::SubSpec::sub_req(p[i + 1], p[i])
    &&& repeated_sum_defined(vstd::std_specs::ops::SubSpec::sub_spec(p[i + 1], p[i]), (p.len() - 1) as nat)
}

/// A Bézier curve of degree 4: from `a` to `b`, shaped by the handles `h0`, `h1`, `h2`.
#[derive(Copy, Clone, Debug)]
pub struct Curve4<V> {
    a: V,
    h0: V,
    h1: V,
    h2: V,
    b: V,
}

impl<V> Curve4<V> {
    /// The control values, from `a` to `b`.
    pub closed spec fn controls(self) -> Seq<V> {
        seq![self.a, self.h0, self.h1, self.h2, self.b]
    }

    /// The curve with control values `a`, `h0`, `h1`, `h2`, `b`.
    pub fn new(a: V, h0: V, h1: V, h2: V, b: V) -> (r: Self)
        ensures
            r.controls() == seq![a, h0, h1, h2, b],
    {
        Self { a, h0, h1, h2, b }
    }

    /// The point of the curve at `t`; `t` outside `[0, 1]` extrapolates.
    pub fn sample<T: BezierT>(self, t: T) -> (r: V) where V: LinearCombination<T>
        requires
            weights_hold(|v: int| T::holds(v), 4, t.scalar()),
            V::combinable(bezier_terms(t.scalar(), points::<V, T>(self.controls()))),
        ensures
            r.point() == bezier_value(t.scalar(), points::<V, T>(self.controls())),
    {
        proof {
            assert(points::<V, T>(self.controls()) =~= seq![self.a.point(), self.h0.point(), self.h1.point(), self.h2.point(), self.b.point()]);
        }
        t.bezier4(self.a, self.h0, self.h1, self.h2, self.b)
    }

    /// The derivative of the curve with respect to its parameter: the curve
    /// of degree 3 with control values `4 (p[i + 1] - p[i])`.
    pub fn ddt(self) -> (r: Curve3<V>) where V: Sub<Output = V> + Add<Output = V> + Copy
        requires
            <V as vstd::std_specs::ops::SubSpec>::obeys_sub_spec(),
            <V as vstd::std_specs::ops::AddSpec>::obeys_add_spec(),
            derivative_defined(self.controls()),
        ensures
            r.controls() == derivative_controls(self.controls()),
    {
        proof {
            reveal_with_fuel(repeated_sum, 5);
            reveal_with_fuel(repeated_sum_defined, 5);
            assert(derivative_step_defined(self.controls(), 0));
            assert(derivative_step_defined(self.controls(), 1));
            assert(derivative_step_defined(self.controls(), 2));
            assert(derivative_step_defined(self.controls(), 3));
        }
        let a = self.h0 - self.a;
        let h0 = self.h1 - self.h0;
        let h1 = self.h2 - self.h1;
        let b = self.b - self.h2;
        let r = Curve3::new(a+a+a+a, h0+h0+h0+h0, h1+h1+h1+h1, b+b+b+b);
        proof {
            assert(r.controls() =~= derivative_controls(self.controls()));
        }
        r
    }
}

/// A Bézier curve of degree 3: from `a` to `b`, shaped by the handles `h0`, `h1`.
#[derive(Copy, Clone, Debug)]
pub struct Curve3<V> {
    a: V,
    h0: V,
    h1: V,
    b: V,
}

impl<V> Curve3<V> {
    /// The control values, from `a` to `b`.
    pub closed spec fn controls(self) -> Seq<V> {
        seq![self.a, self.h0, self.h1, self.b]
    }

    /// The curve with control values `a`, `h0`, `h1`, `b`.
    pub fn new(a: V, h0: V, h1: V, b: V) -> (r: Self)
        ensures
            r.controls() == seq![a, h0, h1, b],
    {
        Self { a, h0, h1, b }
    }

    /// The point of the curve at `t`; `t` outside `[0, 1]` extrapolates.
    pub fn sample<T: BezierT>(self, t: T) -> (r: V) where V: LinearCombination<T>
        requires
            weights_hold(|v: int| T::holds(v), 3, t.scalar()),
            V::combinable(bezier_terms(t.scalar(), points::<V, T>(self.controls()))),
        ensures
            r.point() == bezier_value(t.scalar(), points::<V, T>(self.controls())),
    {
        proof {
            assert(points::<V, T>(self.controls()) =~= seq![self.a.point(), self.h0.point(), self.h1.point(), self.b.point()]);
        }
        t.bezier3(self.a, self.h0, self.h1, self.b)
    }

    /// The derivative of the curve with respect to its parameter: the curve
    /// of degree 2 with control values `3 (p[i + 1] - p[i])`.
    pub fn ddt(self) -> (r: Curve2<V>) where V: Sub<Output = V> + Add<Output = V> + Copy
        requires
            <V as vstd::std_specs::ops::SubSpec>::obeys_sub_spec(),
            <V as vstd::std_specs::ops::AddSpec>::obeys_add_spec(),
            derivative_defined(self.controls()),
        ensures
            r.controls() == derivative_controls(self.controls()),
    {
        proof {
            reveal_with_fuel(repeated_sum, 4);
            reveal_with_fuel(repeated_sum_defined, 4);
            assert(derivative_step_defined(self.controls(), 0));
            assert(derivative_step_defined(self.controls(), 1));
            assert(derivative_step_defined(self.controls(), 2));
        }
        let a = self.h0 - self.a;
        let h = self.h1 - self.h0;
        let b = self.b - self.h1;
        let r = Curve2::new(a+a+a, h+h+h, b+b+b);
        proof {
            assert(r.controls() =~= derivative_controls(self.controls()));
        }
        r
    }
}

/// A Bézier curve of degree 2: from `a` to `b`, shaped by the handles `h`.
#[derive(Copy, Clone, Debug)]
pub struct Curve2<V> {
    a: V,
    h: V,
    b: V,
}

impl<V> Curve2<V> {
    /// The control values, from `a` to `b`.
    pub closed spec fn controls(self) -> Seq<V> {
        seq![self.a, self.h, self.b]
    }

    /// The curve with control values `a`, `h`, `b`.
    pub fn new(a: V, h: V, b: V) -> (r: Self)
        ensures
            r.controls() == seq![a, h, b],
    {
        Self { a, h, b }
    }

    /// The point of the curve at `t`; `t` outside `[0, 1]` extrapolates.
    pub fn sample<T: BezierT>(self, t: T) -> (r: V) where V: LinearCombination<T>
        requires
            weights_hold(|v: int| T::holds(v), 2, t.scalar()),
            V::combinable(bezier_terms(t.scalar(), points::<V, T>(self.controls()))),
        ensures
            r.point() == bezier_value(t.scalar(), points::<V, T>(self.controls())),
    {
        proof {
            assert(points::<V, T>(self.controls()) =~= seq![self.a.point(), self.h.point(), self.b.point()]);
        }
        t.bezier2(self.a, self.h, self.b)
    }

    /// The derivative of the curve with respect to its parameter: the curve
    /// of degree 1 with control values `2 (p[i + 1] - p[i])`.
    pub fn ddt(self) -> (r: Curve1<V>) where V: Sub<Output = V> + Add<Output = V> + Copy
        requires
            <V as vstd::std_specs::ops::SubSpec>::obeys_sub_spec(),
            <V as vstd::std_specs::ops::AddSpec>::obeys_add_spec(),
            derivative_defined(self.controls()),
        ensures
            r.controls() == derivative_controls(self.controls()),
    {
        proof {
            reveal_with_fuel(repeated_sum, 3);
            reveal_with_fuel(repeated_sum_defined, 3);
            assert(derivative_step_defined(self.controls(), 0));
            assert(derivative_step_defined(self.controls(), 1));
        }
        let a = self.h - self.a;
        let b = self.b - self.h;
        let r = Curve1::new(a+a, b+b);
        proof {
            assert(r.controls() =~= derivative_controls(self.controls()));
        }
        r
    }
}

/// A Bézier curve of degree 1: from `a` to `b`.
#[derive(Copy, Clone, Debug)]
pub struct Curve1<V> {
    a: V,
    b: V,
}

impl<V> Curve1<V> {
    /// The control values, from `a` to `b`.
    pub closed spec fn controls(self) -> Seq<V> {
        seq![self.a, self.b]
    }

    /// The curve with control values `a`, `b`.
    pub fn new(a: V, b: V) -> (r: Self)
        ensures
            r.controls() == seq![a, b],
    {
        Self { a, b }
    }

    /// The point of the curve at `t`; `t` outside `[0, 1]` extrapolates.
    pub fn sample<T: BezierT>(self, t: T) -> (r: V) where V: LinearCombination<T>
        requires
            weights_hold(|v: int| T::holds(v), 1, t.scalar()),
            V::combinable(bezier_terms(t.scalar(), points::<V, T>(self.controls()))),
        ensures
            r.point() == bezier_value(t.scalar(), points::<V, T>(self.controls())),
    {
        proof {
            assert(points::<V, T>(self.controls()) =~= seq![self.a.point(), self.b.point()]);
        }
        t.lerp(self.a, self.b)
    }
}

} // verus!
