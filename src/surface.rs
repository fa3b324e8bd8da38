//! Tensor-product Bézier patches: a row of curves, blended once more along
//! a second parameter.
use crate::basis::{bezier_terms, bezier_value, points, weights_hold, Bezier, BezierT, LinearCombination};
use crate::curve::{Curve2, Curve3};
use vstd::prelude::*;

verus! {

/// The values at `t` of the curves whose control values are the rows of `grid`.
pub open spec fn row_values(t: int, grid: Seq<Seq<int>>) -> Seq<int> {
    Seq::new(grid.len(), |i: int| bezier_value(t, grid[i]))
}

/// Column `j` of `grid`.
pub open spec fn column(grid: Seq<Seq<int>>, j: int) -> Seq<int> {
    Seq::new(grid.len(), |i: int| grid[i][j])
}

/// The value of the patch with control grid `grid`, reducing the rows at `t`
/// first and the resulting column at `u` after.
pub open spec fn patch_value(t: int, u: int, grid: Seq<Seq<int>>) -> int {
    bezier_value(u, row_values(t, grid))
}

/// The value of the patch with control grid `grid`, reducing the columns at
/// `u` first and the resulting row at `t` after.
pub open spec fn patch_value_by_columns(t: int, u: int, grid: Seq<Seq<int>>) -> int {
    bezier_value(t, Seq::new(grid[0].len(), |j: int| bezier_value(u, column(grid, j))))
}

/// A tensor-product Bézier patch of degree 3 in both parameters: 4 rows,
/// each a `Curve3`, forming a 4 by 4 control grid.
#[derive(Copy, Clone, Debug)]
pub struct Surface3<V> {
    a: Curve3<V>,
    h0: Curve3<V>,
    h1: Curve3<V>,
    b: Curve3<V>,
}

impl<V> Surface3<V> {
    /// The rows, from `a` to `b`.
    pub closed spec fn rows(self) -> Seq<Curve3<V>> {
        seq![self.a, self.h0, self.h1, self.b]
    }

    /// The numbers that the control grid stands for, row by row.
    pub open spec fn grid<T: BezierT>(self) -> Seq<Seq<int>> where V: LinearCombination<T> {
        self.rows().map_values(|c: Curve3<V>| points::<V, T>(c.controls()))
    }

    /// The patch with rows `a`, `h0`, `h1`, `b`.
    pub fn new(a: Curve3<V>, h0: Curve3<V>, h1: Curve3<V>, b: Curve3<V>) -> (r: Self)
        ensures
            r.rows() == seq![a, h0, h1, b],
    {
        Self { a, h0, h1, b }
    }

    /// The point of the patch at `(t, u)`: each row sampled at `t`, those
    /// values blended at `u`.
    pub fn sample<T: BezierT>(self, t: T, u: T) -> (r: V) where V: LinearCombination<T>
        requires
            weights_hold(|v: int| T::holds(v), 3, t.scalar()),
            weights_hold(|v: int| T::holds(v), 3, u.scalar()),
            forall|i: int| 0 <= i < 4 ==> V::combinable(#[trigger] bezier_terms(t.scalar(), self.grid::<T>()[i])),
            V::combinable(bezier_terms(u.scalar(), row_values(t.scalar(), self.grid::<T>()))),
        ensures
            r.point() == patch_value(t.scalar(), u.scalar(), self.grid::<T>()),
    {
        proof {
            assert(V::combinable(bezier_terms(t.scalar(), self.grid::<T>()[0])));
            assert(V::combinable(bezier_terms(t.scalar(), self.grid::<T>()[1])));
            assert(V::combinable(bezier_terms(t.scalar(), self.grid::<T>()[2])));
            assert(V::combinable(bezier_terms(t.scalar(), self.grid::<T>()[3])));
        }
        let r0 = self.a.sample(t);
        let r1 = self.h0.sample(t);
        let r2 = self.h1.sample(t);
        let r3 = self.b.sample(t);
        proof {
            assert(seq![r0.point(), r1.point(), r2.point(), r3.point()] =~= row_values(t.scalar(), self.grid::<T>()));
        }
        u.bezier3(r0, r1, r2, r3)
    }
}

/// A tensor-product Bézier patch of degree 2 in both parameters: 3 rows,
/// each a `Curve2`, forming a 3 by 3 control grid.
#[derive(Copy, Clone, Debug)]
pub struct Surface2<V> {
    a: Curve2<V>,
    h: Curve2<V>,
    b: Curve2<V>,
}

impl<V> Surface2<V> {
    /// The rows, from `a` to `b`.
    pub closed spec fn rows(self) -> Seq<Curve2<V>> {
        seq![self.a, self.h, self.b]
    }

    /// The numbers that the control grid stands for, row by row.
    pub open spec fn grid<T: BezierT>(self) -> Seq<Seq<int>> where V: LinearCombination<T> {
        self.rows().map_values(|c: Curve2<V>| points::<V, T>(c.controls()))
    }

    /// The patch with rows `a`, `h`, `b`.
    pub fn new(a: Curve2<V>, h: Curve2<V>, b: Curve2<V>) -> (r: Self)
        ensures
            r.rows() == seq![a, h, b],
    {
        Self { a, h, b }
    }

    /// The point of the patch at `(t, u)`: each row sampled at `t`, those
    /// values blended at `u`.
    pub fn sample<T: BezierT>(self, t: T, u: T) -> (r: V) where V: LinearCombination<T>
        requires
            weights_hold(|v: int| T::holds(v), 2, t.scalar()),
            weights_hold(|v: int| T::holds(v), 2, u.scalar()),
            forall|i: int| 0 <= i < 3 ==> V::combinable(#[trigger] bezier_terms(t.scalar(), self.grid::<T>()[i])),
            V::combinable(bezier_terms(u.scalar(), row_values(t.scalar(), self.grid::<T>()))),
        ensures
            r.point() == patch_value(t.scalar(), u.scalar(), self.grid::<T>()),
    {
        proof {
            assert(V::combinable(bezier_terms(t.scalar(), self.grid::<T>()[0])));
            assert(V::combinable(bezier_terms(t.scalar(), self.grid::<T>()[1])));
            assert(V::combinable(bezier_terms(t.scalar(), self.grid::<T>()[2])));
        }
        let r0 = self.a.sample(t);
        let r1 = self.h.sample(t);
        let r2 = self.b.sample(t);
        proof {
            assert(seq![r0.point(), r1.point(), r2.point()] =~= row_values(t.scalar(), self.grid::<T>()));
        }
        u.bezier2(r0, r1, r2)
    }
}

} // verus!
