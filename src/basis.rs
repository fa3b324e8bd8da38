//! The scalar and vector capabilities that curve evaluation is built on, and
//! the integer model of the Bernstein basis.
use vstd::arithmetic::power::pow;
use vstd::math::abs;
use vstd::prelude::*;

verus! {

/// Scalar capability of a curve parameter: integer powers, the complement
/// `1 - x`, integer scaling and multiplication.
///
/// Each scalar stands for an integer (`scalar`); `holds` says which integers
/// the type can represent, and every operation is asked only for results it
/// can represent. A type that keeps the defaults (floating point, say)
/// represents no integer, so verified code never calls its operations.
pub trait BezierT: Sized + Copy {
    /// The number this scalar stands for.
    open spec fn scalar(self) -> int {
        0
    }

    /// Whether the type can represent the number `v`.
    open spec fn holds(v: int) -> bool {
        false
    }

    /// `self` raised to the power `exp`.
    fn pow(self, exp: i32) -> (r: Self)
        requires
            exp >= 0,
            Self::holds(pow(self.scalar(), exp as nat)),
        ensures
            r.scalar() == pow(self.scalar(), exp as nat),
    ;

    /// The complement `1 - self`.
    fn comp(self) -> (r: Self)
        requires
            Self::holds(1 - self.scalar()),
        ensures
            r.scalar() == 1 - self.scalar(),
    ;

    /// `self` scaled by the integer `coeff`.
    fn prod(self, coeff: i32) -> (r: Self)
        requires
            Self::holds(self.scalar() * coeff),
        ensures
            r.scalar() == self.scalar() * coeff,
    ;

    /// The product of `self` and `other`.
    fn mul(self, other: Self) -> (r: Self)
        requires
            Self::holds(self.scalar() * other.scalar()),
        ensures
            r.scalar() == self.scalar() * other.scalar(),
    ;

    /// One Bernstein term: `(1 - self)^comp * self^exp * coeff`.
    fn coeff(self, comp: i32, exp: i32, coeff: i32) -> (r: Self)
        requires
            comp >= 0,
            exp >= 0,
            Self::holds(1 - self.scalar()),
            Self::holds(pow(1 - self.scalar(), comp as nat)),
            Self::holds(pow(self.scalar(), exp as nat)),
            Self::holds(pow(1 - self.scalar(), comp as nat) * pow(self.scalar(), exp as nat)),
            Self::holds(pow(1 - self.scalar(), comp as nat) * pow(self.scalar(), exp as nat) * coeff),
        ensures
            r.scalar() == pow(1 - self.scalar(), comp as nat) * pow(self.scalar(), exp as nat) * coeff,
    {
        self.comp().pow(comp).mul(self.pow(exp)).prod(coeff)
    }
}

/// Vector capability: the weighted sum of a fixed number of (value, weight)
/// pairs, with weights of the scalar type `S`.
///
/// Each value stands for an integer (`point`); `combinable` says for which
/// (value, weight) models the sum, accumulated left to right, is representable.
/// A type that keeps the defaults can combine none of them in verified code.
pub trait LinearCombination<S: BezierT>: Sized {
    /// The number this value stands for.
    open spec fn point(self) -> int {
        0
    }

    /// Whether the weighted sum of `terms`, each a (value, weight) pair of
    /// numbers, can be formed in this type.
    open spec fn combinable(terms: Seq<(int, int)>) -> bool {
        false
    }

    /// The sum of `weight * value` over `terms`, from left to right.
    fn linear_combination<const N: usize>(terms: [(Self, S); N]) -> (r: Self)
        requires
            Self::combinable(terms@.map_values(|p: (Self, S)| (p.0.point(), p.1.scalar()))),
        ensures
            r.point() == weighted_sum(terms@.map_values(|p: (Self, S)| (p.0.point(), p.1.scalar()))),
    ;
}

/// The numbers that a list of values stands for, with weights of type `S`.
pub open spec fn points<V: LinearCombination<S>, S: BezierT>(values: Seq<V>) -> Seq<int> {
    values.map_values(|v: V| v.point())
}

/// `Σ weight * value`, accumulated from the left.
pub open spec fn weighted_sum(terms: Seq<(int, int)>) -> int
    decreases terms.len(),
{
    if terms.len() == 0 {
        0
    } else {
        weighted_sum(terms.drop_last()) + terms.last().1 * terms.last().0
    }
}

/// The range that `i64` scalars and values keep to: symmetric, so that a
/// power's magnitude bounds those of the lower powers.
pub open spec fn in_i64(v: int) -> bool {
    -(i64::MAX as int) <= v <= i64::MAX
}

/// Every product and every partial sum of a left-to-right weighted sum lies
/// in `in_i64`.
pub open spec fn sums_in_i64(terms: Seq<(int, int)>) -> bool {
    forall|i: int|
        0 <= i < terms.len() ==> in_i64(#[trigger] terms[i].1 * terms[i].0) && in_i64(
            weighted_sum(terms.take(i + 1)),
        )
}

proof fn lemma_pow_magnitude(x: int, k: nat, n: nat)
    requires
        k <= n,
        x != 0 || k > 0,
    ensures
        abs(pow(x, k)) <= abs(pow(x, n)),
    decreases n,
{
    reveal(pow);
    if x == 0 {
        vstd::arithmetic::power::lemma0_pow(k);
    } else if k < n {
        lemma_pow_magnitude(x, k, (n - 1) as nat);
        assert(abs(pow(x, (n - 1) as nat)) <= abs(x) * abs(pow(x, (n - 1) as nat))) by (nonlinear_arith)
            requires x != 0;
        assert(abs(x * pow(x, (n - 1) as nat)) == abs(x) * abs(pow(x, (n - 1) as nat))) by (nonlinear_arith);
    }
}

impl BezierT for i64 {
    open spec fn scalar(self) -> int {
        self as int
    }

    open spec fn holds(v: int) -> bool {
        in_i64(v)
    }

    fn pow(self, exp: i32) -> (r: i64) {
        let mut r: i64 = 1;
        let mut i: i32 = 0;
        proof {
            reveal(pow);
        }
        while i < exp
            invariant
                0 <= i <= exp,
                r as int == pow(self as int, i as nat),
                in_i64(pow(self as int, exp as nat)),
            decreases exp - i,
        {
            proof {
                reveal(pow);
                lemma_pow_magnitude(self as int, (i + 1) as nat, exp as nat);
                assert(pow(self as int, (i + 1) as nat) == self * pow(self as int, i as nat));
            }
            r = self * r;
            i = i + 1;
        }
        r
    }

    fn comp(self) -> (r: i64) {
        1 - self
    }

    fn prod(self, coeff: i32) -> (r: i64) {
        self * coeff as i64
    }

    fn mul(self, other: i64) -> (r: i64) {
        self * other
    }
}

impl LinearCombination<i64> for i64 {
    open spec fn point(self) -> int {
        self as int
    }

    open spec fn combinable(terms: Seq<(int, int)>) -> bool {
        sums_in_i64(terms)
    }

    fn linear_combination<const N: usize>(terms: [(i64, i64); N]) -> (r: i64) {
        let ghost m = terms@.map_values(|p: (i64, i64)| (p.0 as int, p.1 as int));
        proof {
            assert(m =~= terms@.map_values(|p: (i64, i64)| (p.0.point(), p.1.scalar())));
        }
        let mut c: i64 = 0;
        let mut i: usize = 0;
        while i < N
            invariant
                0 <= i <= N,
                terms@.len() == N,
                m == terms@.map_values(|p: (i64, i64)| (p.0 as int, p.1 as int)),
                sums_in_i64(m),
                c as int == weighted_sum(m.take(i as int)),
            decreases N - i,
        {
            let (v, w) = terms[i];
            proof {
                assert(m.take(i + 1).drop_last() =~= m.take(i as int));
                assert(m[i as int] == (v as int, w as int));
                assert(in_i64(m[i as int].1 * m[i as int].0));
            }
            c = c + w * v;
            i = i + 1;
        }
        proof {
            assert(m.take(N as int) =~= m);
        }
        c
    }
}

/// The binomial coefficient `n` choose `i`.
pub open spec fn binomial(n: nat, i: nat) -> nat
    decreases n,
{
    if i == 0 {
        1
    } else if n == 0 {
        0
    } else {
        binomial((n - 1) as nat, (i - 1) as nat) + binomial((n - 1) as nat, i)
    }
}

/// The `i`-th Bernstein basis polynomial of degree `n`, at `t`.
pub open spec fn bernstein(n: nat, i: nat, t: int) -> int {
    pow(1 - t, (n - i) as nat) * pow(t, i) * binomial(n, i)
}

/// The (control value, weight) pairs that a Bézier polynomial with control
/// values `p` (of degree `p.len() - 1`) blends at `t`.
pub open spec fn bezier_terms(t: int, p: Seq<int>) -> Seq<(int, int)> {
    Seq::new(p.len(), |i: int| (p[i], bernstein((p.len() - 1) as nat, i as nat, t)))
}

/// The value at `t` of the Bézier polynomial with control values `p`.
pub open spec fn bezier_value(t: int, p: Seq<int>) -> int {
    weighted_sum(bezier_terms(t, p))
}

/// Every intermediate value of one Bernstein term `(1 - t)^c * t^p * k`
/// satisfies `holds`.
pub open spec fn term_holds(holds: spec_fn(int) -> bool, t: int, c: nat, p: nat, k: int) -> bool {
    &&& holds(1 - t)
    &&& holds(pow(1 - t, c))
    &&& holds(pow(t, p))
    &&& holds(pow(1 - t, c) * pow(t, p))
    &&& holds(pow(1 - t, c) * pow(t, p) * k)
}

/// Every intermediate value of the degree-`n` Bernstein weights at `t`
/// satisfies `holds`.
pub open spec fn weights_hold(holds: spec_fn(int) -> bool, n: nat, t: int) -> bool {
    forall|i: nat|
        i <= n ==> #[trigger] term_holds(holds, t, (n - i) as nat, i, binomial(n, i) as int)
}

/// Evaluation of Bézier polynomials of degree one to four with a scalar
/// parameter `self` and control values of type `V`.
pub trait Bezier<V: LinearCombination<Self>>: BezierT {
    /// `(1 - self) a + self b`.
    fn lerp(self, a: V, b: V) -> (r: V)
        requires
            weights_hold(|v: int| Self::holds(v), 1, self.scalar()),
            V::combinable(bezier_terms(self.scalar(), seq![a.point(), b.point()])),
        ensures
            r.point() == bezier_value(self.scalar(), seq![a.point(), b.point()]),
    ;

    /// The degree-2 Bézier polynomial with control values `a`, `h`, `b`, at `self`.
    fn bezier2(self, a: V, h: V, b: V) -> (r: V)
        requires
            weights_hold(|v: int| Self::holds(v), 2, self.scalar()),
            V::combinable(bezier_terms(self.scalar(), seq![a.point(), h.point(), b.point()])),
        ensures
            r.point() == bezier_value(self.scalar(), seq![a.point(), h.point(), b.point()]),
    ;

    /// The degree-3 Bézier polynomial with control values `a`, `h0`, `h1`, `b`, at `self`.
    fn bezier3(self, a: V, h0: V, h1: V, b: V) -> (r: V)
        requires
            weights_hold(|v: int| Self::holds(v), 3, self.scalar()),
            V::combinable(bezier_terms(self.scalar(), seq![a.point(), h0.point(), h1.point(), b.point()])),
        ensures
            r.point() == bezier_value(self.scalar(), seq![a.point(), h0.point(), h1.point(), b.point()]),
    ;

    /// The degree-4 Bézier polynomial with control values `a`, `h0`, `h1`, `h2`, `b`, at `self`.
    fn bezier4(self, a: V, h0: V, h1: V, h2: V, b: V) -> (r: V)
        requires
            weights_hold(|v: int| Self::holds(v), 4, self.scalar()),
            V::combinable(bezier_terms(self.scalar(), seq![a.point(), h0.point(), h1.point(), h2.point(), b.point()])),
        ensures
            r.point() == bezier_value(self.scalar(), seq![a.point(), h0.point(), h1.point(), h2.point(), b.point()]),
    ;
}

impl<T: BezierT, V: LinearCombination<T>> Bezier<V> for T {
    fn lerp(self, a: V, b: V) -> (r: V) {
        proof {
            lemma_bernstein_ends(1, self.scalar());
            assert(term_holds(|v: int| T::holds(v), self.scalar(), (1 - 0) as nat, 0, binomial(1, 0) as int));
        }
        let w0 = self.comp();
        let terms = [(a, w0), (b, self)];
        proof {
            assert(terms@.len() == 2);
            assert(terms@[0] == (a, w0));
            assert(terms@[1] == (b, self));
            assert(terms@.map_values(|p: (V, T)| (p.0.point(), p.1.scalar())) =~= bezier_terms(self.scalar(), seq![a.point(), b.point()]));
        }
        V::linear_combination(terms)
    }

    fn bezier2(self, a: V, h: V, b: V) -> (r: V) {
        proof {
            lemma_bernstein_ends(2, self.scalar());
            assert(term_holds(|v: int| T::holds(v), self.scalar(), (2 - 0) as nat, 0, binomial(2, 0) as int));
            assert(term_holds(|v: int| T::holds(v), self.scalar(), (2 - 1) as nat, 1, binomial(2, 1) as int));
            assert(term_holds(|v: int| T::holds(v), self.scalar(), (2 - 2) as nat, 2, binomial(2, 2) as int));
        }
        let w0 = self.comp().pow(2);
        let w1 = self.coeff(1, 1, 2);
        let w2 = self.pow(2);
        let terms = [(a, w0), (h, w1), (b, w2)];
        proof {
            assert(terms@.len() == 3);
            assert(terms@[0] == (a, w0));
            assert(terms@[1] == (h, w1));
            assert(terms@[2] == (b, w2));
            assert(terms@.map_values(|p: (V, T)| (p.0.point(), p.1.scalar())) =~= bezier_terms(self.scalar(), seq![a.point(), h.point(), b.point()]));
        }
        V::linear_combination(terms)
    }

    fn bezier3(self, a: V, h0: V, h1: V, b: V) -> (r: V) {
        proof {
            lemma_bernstein_ends(3, self.scalar());
            assert(term_holds(|v: int| T::holds(v), self.scalar(), (3 - 0) as nat, 0, binomial(3, 0) as int));
            assert(term_holds(|v: int| T::holds(v), self.scalar(), (3 - 1) as nat, 1, binomial(3, 1) as int));
            assert(term_holds(|v: int| T::holds(v), self.scalar(), (3 - 2) as nat, 2, binomial(3, 2) as int));
            assert(term_holds(|v: int| T::holds(v), self.scalar(), (3 - 3) as nat, 3, binomial(3, 3) as int));
        }
        let w0 = self.comp().pow(3);
        let w1 = self.coeff(2, 1, 3);
        let w2 = self.coeff(1, 2, 3);
        let w3 = self.pow(3);
        let terms = [(a, w0), (h0, w1), (h1, w2), (b, w3)];
        proof {
            assert(terms@.len() == 4);
            assert(terms@[0] == (a, w0));
            assert(terms@[1] == (h0, w1));
            assert(terms@[2] == (h1, w2));
            assert(terms@[3] == (b, w3));
            assert(terms@.map_values(|p: (V, T)| (p.0.point(), p.1.scalar())) =~= bezier_terms(self.scalar(), seq![a.point(), h0.point(), h1.point(), b.point()]));
        }
        V::linear_combination(terms)
    }

    fn bezier4(self, a: V, h0: V, h1: V, h2: V, b: V) -> (r: V) {
        proof {
            lemma_bernstein_ends(4, self.scalar());
            assert(term_holds(|v: int| T::holds(v), self.scalar(), (4 - 0) as nat, 0, binomial(4, 0) as int));
            assert(term_holds(|v: int| T::holds(v), self.scalar(), (4 - 1) as nat, 1, binomial(4, 1) as int));
            assert(term_holds(|v: int| T::holds(v), self.scalar(), (4 - 2) as nat, 2, binomial(4, 2) as int));
            assert(term_holds(|v: int| T::holds(v), self.scalar(), (4 - 3) as nat, 3, binomial(4, 3) as int));
            assert(term_holds(|v: int| T::holds(v), self.scalar(), (4 - 4) as nat, 4, binomial(4, 4) as int));
        }
        let w0 = self.comp().pow(4);
        let w1 = self.coeff(3, 1, 4);
        let w2 = self.coeff(2, 2, 6);
        let w3 = self.coeff(1, 3, 4);
        let w4 = self.pow(4);
        let terms = [(a, w0), (h0, w1), (h1, w2), (h2, w3), (b, w4)];
        proof {
            assert(terms@.len() == 5);
            assert(terms@[0] == (a, w0));
            assert(terms@[1] == (h0, w1));
            assert(terms@[2] == (h1, w2));
            assert(terms@[3] == (h2, w3));
            assert(terms@[4] == (b, w4));
            assert(terms@.map_values(|p: (V, T)| (p.0.point(), p.1.scalar())) =~= bezier_terms(self.scalar(), seq![a.point(), h0.point(), h1.point(), h2.point(), b.point()]));
        }
        V::linear_combination(terms)
    }
}

proof fn lemma_bernstein_ends(n: nat, t: int)
    requires
        1 <= n <= 4,
    ensures
        bernstein(n, 0, t) == pow(1 - t, n),
        bernstein(n, n, t) == pow(t, n),
        pow(t, 1) == t,
        pow(1 - t, 1) == 1 - t,
        binomial(2, 1) == 2,
        binomial(3, 1) == 3,
        binomial(3, 2) == 3,
        binomial(4, 1) == 4,
        binomial(4, 2) == 6,
        binomial(4, 3) == 4,
{
    reveal_with_fuel(binomial, 5);
    vstd::arithmetic::power::lemma_pow0(t);
    vstd::arithmetic::power::lemma_pow0(1 - t);
    vstd::arithmetic::power::lemma_pow1(t);
    vstd::arithmetic::power::lemma_pow1(1 - t);
    assert(binomial(n, n) == 1) by {
        reveal_with_fuel(binomial, 5);
        if n == 1 {
        } else if n == 2 {
        } else if n == 3 {
        } else {
        }
    }
}

} // verus!
