//! Laws of Bézier evaluation, stated over the integer model that the
//! contracts of the curves and patches use.
use crate::basis::{bernstein, bezier_terms, bezier_value, binomial, points, weighted_sum};
use crate::curve::{derivative_controls, derivative_defined, derivative_step_defined, repeated_sum, repeated_sum_defined};
use crate::surface::{column, patch_value, patch_value_by_columns, row_values};
use vstd::arithmetic::power::pow;
use vstd::prelude::*;

verus! {

/// `bezier_value` written out as the sum of `weight * value` over the control
/// values, the weights left as Bernstein polynomials.
proof fn lemma_value_sum(t: int, p: Seq<int>)
    requires
        2 <= p.len() <= 5,
    ensures
        p.len() == 2 ==> bezier_value(t, p) == bernstein(1, 0, t) * p[0] + bernstein(1, 1, t) * p[1],
        p.len() == 3 ==> bezier_value(t, p) == bernstein(2, 0, t) * p[0] + bernstein(2, 1, t) * p[1]
            + bernstein(2, 2, t) * p[2],
        p.len() == 4 ==> bezier_value(t, p) == bernstein(3, 0, t) * p[0] + bernstein(3, 1, t) * p[1]
            + bernstein(3, 2, t) * p[2] + bernstein(3, 3, t) * p[3],
        p.len() == 5 ==> bezier_value(t, p) == bernstein(4, 0, t) * p[0] + bernstein(4, 1, t) * p[1]
            + bernstein(4, 2, t) * p[2] + bernstein(4, 3, t) * p[3] + bernstein(4, 4, t) * p[4],
{
    lemma_sum_terms(bezier_terms(t, p));
}

/// The powers of `x` from the zeroth to the fourth, written as products.
proof fn lemma_small_powers(x: int)
    ensures
        pow(x, 0) == 1,
        pow(x, 1) == x,
        pow(x, 2) == x * x,
        pow(x, 3) == x * x * x,
        pow(x, 4) == x * x * x * x,
{
    reveal_with_fuel(pow, 5);
    assert(x * (x * (x * 1)) == x * x * x) by (nonlinear_arith);
    assert(x * (x * (x * (x * 1))) == x * x * x * x) by (nonlinear_arith);
}

/// The Bernstein polynomials of degree one to four, written as products.
proof fn lemma_bernstein_products(t: int)
    ensures
        bernstein(1, 0, t) == 1 - t,
        bernstein(1, 1, t) == t,
        bernstein(2, 0, t) == (1 - t) * (1 - t),
        bernstein(2, 1, t) == 2 * (1 - t) * t,
        bernstein(2, 2, t) == t * t,
        bernstein(3, 0, t) == (1 - t) * (1 - t) * (1 - t),
        bernstein(3, 1, t) == 3 * (1 - t) * (1 - t) * t,
        bernstein(3, 2, t) == 3 * (1 - t) * t * t,
        bernstein(3, 3, t) == t * t * t,
        bernstein(4, 0, t) == (1 - t) * (1 - t) * (1 - t) * (1 - t),
        bernstein(4, 1, t) == 4 * (1 - t) * (1 - t) * (1 - t) * t,
        bernstein(4, 2, t) == 6 * (1 - t) * (1 - t) * t * t,
        bernstein(4, 3, t) == 4 * (1 - t) * t * t * t,
        bernstein(4, 4, t) == t * t * t * t,
{
    let s = 1 - t;
    lemma_small_powers(s);
    lemma_small_powers(t);
    reveal_with_fuel(binomial, 5);
    assert(binomial(1, 0) == 1);
    assert(binomial(1, 1) == 1);
    assert(binomial(2, 0) == 1);
    assert(binomial(2, 1) == 2);
    assert(binomial(2, 2) == 1);
    assert(binomial(3, 0) == 1);
    assert(binomial(3, 1) == 3);
    assert(binomial(3, 2) == 3);
    assert(binomial(3, 3) == 1);
    assert(binomial(4, 0) == 1);
    assert(binomial(4, 1) == 4);
    assert(binomial(4, 2) == 6);
    assert(binomial(4, 3) == 4);
    assert(binomial(4, 4) == 1);
    assert(bernstein(1, 0, t) == s) by (nonlinear_arith)
        requires
            bernstein(1, 0, t) == pow(s, 1) * pow(t, 0) * 1,
            pow(s, 1) == s,
            pow(t, 0) == 1,
    ;
    assert(bernstein(1, 1, t) == t) by (nonlinear_arith)
        requires
            bernstein(1, 1, t) == pow(s, 0) * pow(t, 1) * 1,
            pow(s, 0) == 1,
            pow(t, 1) == t,
    ;
    assert(bernstein(2, 0, t) == s * s) by (nonlinear_arith)
        requires
            bernstein(2, 0, t) == pow(s, 2) * pow(t, 0) * 1,
            pow(s, 2) == s * s,
            pow(t, 0) == 1,
    ;
    assert(bernstein(2, 1, t) == 2 * s * t) by (nonlinear_arith)
        requires
            bernstein(2, 1, t) == pow(s, 1) * pow(t, 1) * 2,
            pow(s, 1) == s,
            pow(t, 1) == t,
    ;
    assert(bernstein(2, 2, t) == t * t) by (nonlinear_arith)
        requires
            bernstein(2, 2, t) == pow(s, 0) * pow(t, 2) * 1,
            pow(s, 0) == 1,
            pow(t, 2) == t * t,
    ;
    assert(bernstein(3, 0, t) == s * s * s) by (nonlinear_arith)
        requires
            bernstein(3, 0, t) == pow(s, 3) * pow(t, 0) * 1,
            pow(s, 3) == s * s * s,
            pow(t, 0) == 1,
    ;
    assert(bernstein(3, 1, t) == 3 * s * s * t) by (nonlinear_arith)
        requires
            bernstein(3, 1, t) == pow(s, 2) * pow(t, 1) * 3,
            pow(s, 2) == s * s,
            pow(t, 1) == t,
    ;
    assert(bernstein(3, 2, t) == 3 * s * t * t) by (nonlinear_arith)
        requires
            bernstein(3, 2, t) == pow(s, 1) * pow(t, 2) * 3,
            pow(s, 1) == s,
            pow(t, 2) == t * t,
    ;
    assert(bernstein(3, 3, t) == t * t * t) by (nonlinear_arith)
        requires
            bernstein(3, 3, t) == pow(s, 0) * pow(t, 3) * 1,
            pow(s, 0) == 1,
            pow(t, 3) == t * t * t,
    ;
    assert(bernstein(4, 0, t) == s * s * s * s) by (nonlinear_arith)
        requires
            bernstein(4, 0, t) == pow(s, 4) * pow(t, 0) * 1,
            pow(s, 4) == s * s * s * s,
            pow(t, 0) == 1,
    ;
    assert(bernstein(4, 1, t) == 4 * s * s * s * t) by (nonlinear_arith)
        requires
            bernstein(4, 1, t) == pow(s, 3) * pow(t, 1) * 4,
            pow(s, 3) == s * s * s,
            pow(t, 1) == t,
    ;
    assert(bernstein(4, 2, t) == 6 * s * s * t * t) by (nonlinear_arith)
        requires
            bernstein(4, 2, t) == pow(s, 2) * pow(t, 2) * 6,
            pow(s, 2) == s * s,
            pow(t, 2) == t * t,
    ;
    assert(bernstein(4, 3, t) == 4 * s * t * t * t) by (nonlinear_arith)
        requires
            bernstein(4, 3, t) == pow(s, 1) * pow(t, 3) * 4,
            pow(s, 1) == s,
            pow(t, 3) == t * t * t,
    ;
    assert(bernstein(4, 4, t) == t * t * t * t) by (nonlinear_arith)
        requires
            bernstein(4, 4, t) == pow(s, 0) * pow(t, 4) * 1,
            pow(s, 0) == 1,
            pow(t, 4) == t * t * t * t,
    ;
}

/// A curve starts at its first control value and ends at its last one.
pub proof fn lemma_endpoints(p: Seq<int>)
    requires
        2 <= p.len() <= 5,
    ensures
        bezier_value(0, p) == p[0],
        bezier_value(1, p) == p.last(),
{
    lemma_value_sum(0, p);
    lemma_value_sum(1, p);
    lemma_bernstein_products(0);
    lemma_bernstein_products(1);
}

/// The Bernstein weights of each degree from one to four sum to one at
/// every `t`: the curve whose control values are all 1 is 1 everywhere.
pub proof fn lemma_partition_of_unity(n: nat, t: int)
    requires
        1 <= n <= 4,
    ensures
        bezier_value(t, Seq::new(n + 1, |i: int| 1int)) == 1,
{
    let s = 1 - t;
    let p = Seq::new(n + 1, |i: int| 1int);
    lemma_value_sum(t, p);
    if n == 1 {
        assert(p[0] == 1 && p[1] == 1);
        assert(p.len() == 2);
        assert(bezier_value(t, p) == bernstein(1, 0, t) * p[0] + bernstein(1, 1, t) * p[1]);
        assert(bezier_value(t, p) == bernstein(1, 0, t) + bernstein(1, 1, t)) by (nonlinear_arith)
            requires
                bezier_value(t, p) == bernstein(1, 0, t) * p[0] + bernstein(1, 1, t) * p[1],
                p[0] == 1 && p[1] == 1,
        ;
        assert(bernstein(1, 0, t) + bernstein(1, 1, t) == 1) by {
            lemma_bernstein_products(t);
            assert(bernstein(1, 0, t) + bernstein(1, 1, t) == 1) by (nonlinear_arith)
                requires
                    s + t == 1,
                    bernstein(1, 0, t) == s,
                    bernstein(1, 1, t) == t,
            ;
        }
    } else if n == 2 {
        assert(p[0] == 1 && p[1] == 1 && p[2] == 1);
        assert(p.len() == 3);
        assert(bezier_value(t, p) == bernstein(2, 0, t) * p[0] + bernstein(2, 1, t) * p[1] + bernstein(2, 2, t) * p[2]);
        assert(bezier_value(t, p) == bernstein(2, 0, t) + bernstein(2, 1, t) + bernstein(2, 2, t)) by (nonlinear_arith)
            requires
                bezier_value(t, p) == bernstein(2, 0, t) * p[0] + bernstein(2, 1, t) * p[1] + bernstein(2, 2, t) * p[2],
                p[0] == 1 && p[1] == 1 && p[2] == 1,
        ;
        assert(bernstein(2, 0, t) + bernstein(2, 1, t) + bernstein(2, 2, t) == 1) by {
            lemma_bernstein_products(t);
            assert(bernstein(2, 0, t) + bernstein(2, 1, t) + bernstein(2, 2, t) == 1) by (nonlinear_arith)
                requires
                    s + t == 1,
                    bernstein(2, 0, t) == s * s,
                    bernstein(2, 1, t) == 2 * s * t,
                    bernstein(2, 2, t) == t * t,
            ;
        }
    } else if n == 3 {
        assert(p[0] == 1 && p[1] == 1 && p[2] == 1 && p[3] == 1);
        assert(p.len() == 4);
        assert(bezier_value(t, p) == bernstein(3, 0, t) * p[0] + bernstein(3, 1, t) * p[1] + bernstein(3, 2, t) * p[2] + bernstein(3, 3, t) * p[3]);
        assert(bezier_value(t, p) == bernstein(3, 0, t) + bernstein(3, 1, t) + bernstein(3, 2, t) + bernstein(3, 3, t)) by (nonlinear_arith)
            requires
                bezier_value(t, p) == bernstein(3, 0, t) * p[0] + bernstein(3, 1, t) * p[1] + bernstein(3, 2, t) * p[2] + bernstein(3, 3, t) * p[3],
                p[0] == 1 && p[1] == 1 && p[2] == 1 && p[3] == 1,
        ;
        assert(bernstein(3, 0, t) + bernstein(3, 1, t) + bernstein(3, 2, t) + bernstein(3, 3, t) == 1) by {
            lemma_bernstein_products(t);
            assert(bernstein(3, 0, t) + bernstein(3, 1, t) + bernstein(3, 2, t) + bernstein(3, 3, t) == 1) by (nonlinear_arith)
                requires
                    s + t == 1,
                    bernstein(3, 0, t) == s * s * s,
                    bernstein(3, 1, t) == 3 * s * s * t,
                    bernstein(3, 2, t) == 3 * s * t * t,
                    bernstein(3, 3, t) == t * t * t,
            ;
        }
    } else if n == 4 {
        assert(p[0] == 1 && p[1] == 1 && p[2] == 1 && p[3] == 1 && p[4] == 1);
        assert(p.len() == 5);
        assert(bezier_value(t, p) == bernstein(4, 0, t) * p[0] + bernstein(4, 1, t) * p[1] + bernstein(4, 2, t) * p[2] + bernstein(4, 3, t) * p[3] + bernstein(4, 4, t) * p[4]);
        assert(bezier_value(t, p) == bernstein(4, 0, t) + bernstein(4, 1, t) + bernstein(4, 2, t) + bernstein(4, 3, t) + bernstein(4, 4, t)) by (nonlinear_arith)
            requires
                bezier_value(t, p) == bernstein(4, 0, t) * p[0] + bernstein(4, 1, t) * p[1] + bernstein(4, 2, t) * p[2] + bernstein(4, 3, t) * p[3] + bernstein(4, 4, t) * p[4],
                p[0] == 1 && p[1] == 1 && p[2] == 1 && p[3] == 1 && p[4] == 1,
        ;
        assert(bernstein(4, 0, t) + bernstein(4, 1, t) + bernstein(4, 2, t) + bernstein(4, 3, t) + bernstein(4, 4, t) == 1) by {
            lemma_bernstein_products(t);
            assert(bernstein(4, 0, t) + bernstein(4, 1, t) + bernstein(4, 2, t) + bernstein(4, 3, t) + bernstein(4, 4, t) == 1) by (nonlinear_arith)
                requires
                    s + t == 1,
                    bernstein(4, 0, t) == s * s * s * s,
                    bernstein(4, 1, t) == 4 * s * s * s * t,
                    bernstein(4, 2, t) == 6 * s * s * t * t,
                    bernstein(4, 3, t) == 4 * s * t * t * t,
                    bernstein(4, 4, t) == t * t * t * t,
            ;
        }
    }
}

/// Reversing the control values reverses the parameter: the reversed curve
/// at `1 - t` is the curve at `t`.
pub proof fn lemma_symmetry(p: Seq<int>, t: int)
    requires
        2 <= p.len() <= 5,
    ensures
        bezier_value(1 - t, p.reverse()) == bezier_value(t, p),
{
    lemma_value_sum(t, p);
    lemma_value_sum(1 - t, p.reverse());
    lemma_bernstein_products(t);
    lemma_bernstein_products(1 - t);
    let s = 1 - t;
    assert(1 - s == t);
    assert(2 * t * s == 2 * s * t) by (nonlinear_arith);
    assert(3 * t * t * s == 3 * s * t * t) by (nonlinear_arith);
    assert(3 * t * s * s == 3 * s * s * t) by (nonlinear_arith);
    assert(4 * t * t * t * s == 4 * s * t * t * t) by (nonlinear_arith);
    assert(4 * t * s * s * s == 4 * s * s * s * t) by (nonlinear_arith);
    assert(6 * t * t * s * s == 6 * s * s * t * t) by (nonlinear_arith);
}

/// The derivative of `x^k` with respect to `x`: `k x^(k - 1)`.
pub open spec fn power_slope(x: int, k: nat) -> int {
    if k == 0 {
        0
    } else {
        k * pow(x, (k - 1) as nat)
    }
}

/// The derivative with respect to `t` of the Bernstein polynomial
/// `(1 - t)^(n - i) t^i C(n, i)`, by the product and chain rules.
pub open spec fn bernstein_slope(n: nat, i: nat, t: int) -> int {
    (pow(1 - t, (n - i) as nat) * power_slope(t, i) - power_slope(1 - t, (n - i) as nat) * pow(t, i)) * binomial(n, i)
}

/// The derivative at `t` of the Bézier polynomial with control values `p`.
pub open spec fn bezier_slope(t: int, p: Seq<int>) -> int {
    weighted_sum(Seq::new(p.len(), |i: int| (p[i], bernstein_slope((p.len() - 1) as nat, i as nat, t))))
}

/// The control values of the derivative curve: `n (p[i + 1] - p[i])` for the
/// degree `n` of `p`.
pub open spec fn hodograph(p: Seq<int>) -> Seq<int> {
    Seq::new((p.len() - 1) as nat, |i: int| (p.len() - 1) * (p[i + 1] - p[i]))
}

/// Each Bernstein slope is the degree times a difference of two Bernstein
/// polynomials of one degree less.
proof fn lemma_bernstein_slopes(t: int)
    ensures
        bernstein_slope(2, 0, t) == 2 * (0 - bernstein(1, 0, t)),
        bernstein_slope(2, 1, t) == 2 * (bernstein(1, 0, t) - bernstein(1, 1, t)),
        bernstein_slope(2, 2, t) == 2 * (bernstein(1, 1, t) - 0),
        bernstein_slope(3, 0, t) == 3 * (0 - bernstein(2, 0, t)),
        bernstein_slope(3, 1, t) == 3 * (bernstein(2, 0, t) - bernstein(2, 1, t)),
        bernstein_slope(3, 2, t) == 3 * (bernstein(2, 1, t) - bernstein(2, 2, t)),
        bernstein_slope(3, 3, t) == 3 * (bernstein(2, 2, t) - 0),
        bernstein_slope(4, 0, t) == 4 * (0 - bernstein(3, 0, t)),
        bernstein_slope(4, 1, t) == 4 * (bernstein(3, 0, t) - bernstein(3, 1, t)),
        bernstein_slope(4, 2, t) == 4 * (bernstein(3, 1, t) - bernstein(3, 2, t)),
        bernstein_slope(4, 3, t) == 4 * (bernstein(3, 2, t) - bernstein(3, 3, t)),
        bernstein_slope(4, 4, t) == 4 * (bernstein(3, 3, t) - 0),
{
    let s = 1 - t;
    lemma_small_powers(s);
    lemma_small_powers(t);
    lemma_bernstein_products(t);
    reveal_with_fuel(binomial, 5);
    assert(bernstein_slope(2, 0, t) == 2 * ((0) - (s))) by (nonlinear_arith)
        requires
            bernstein_slope(2, 0, t) == ((s * s) * (0) - (2 * (s)) * 1) * 1,
    ;
    assert(bernstein_slope(2, 1, t) == 2 * ((s) - (t))) by (nonlinear_arith)
        requires
            bernstein_slope(2, 1, t) == ((s) * (1 * 1) - (1 * 1) * (t)) * 2,
    ;
    assert(bernstein_slope(2, 2, t) == 2 * ((t) - (0))) by (nonlinear_arith)
        requires
            bernstein_slope(2, 2, t) == (1 * (2 * (t)) - (0) * (t * t)) * 1,
    ;
    assert(bernstein_slope(3, 0, t) == 3 * ((0) - (s * s))) by (nonlinear_arith)
        requires
            bernstein_slope(3, 0, t) == ((s * s * s) * (0) - (3 * (s * s)) * 1) * 1,
    ;
    assert(bernstein_slope(3, 1, t) == 3 * ((s * s) - (2 * s * t))) by (nonlinear_arith)
        requires
            bernstein_slope(3, 1, t) == ((s * s) * (1 * 1) - (2 * (s)) * (t)) * 3,
    ;
    assert(bernstein_slope(3, 2, t) == 3 * ((2 * s * t) - (t * t))) by (nonlinear_arith)
        requires
            bernstein_slope(3, 2, t) == ((s) * (2 * (t)) - (1 * 1) * (t * t)) * 3,
    ;
    assert(bernstein_slope(3, 3, t) == 3 * ((t * t) - (0))) by (nonlinear_arith)
        requires
            bernstein_slope(3, 3, t) == (1 * (3 * (t * t)) - (0) * (t * t * t)) * 1,
    ;
    assert(bernstein_slope(4, 0, t) == 4 * ((0) - (s * s * s))) by (nonlinear_arith)
        requires
            bernstein_slope(4, 0, t) == ((s * s * s * s) * (0) - (4 * (s * s * s)) * 1) * 1,
    ;
    assert(bernstein_slope(4, 1, t) == 4 * ((s * s * s) - (3 * s * s * t))) by (nonlinear_arith)
        requires
            bernstein_slope(4, 1, t) == ((s * s * s) * (1 * 1) - (3 * (s * s)) * (t)) * 4,
    ;
    assert(bernstein_slope(4, 2, t) == 4 * ((3 * s * s * t) - (3 * s * t * t))) by (nonlinear_arith)
        requires
            bernstein_slope(4, 2, t) == ((s * s) * (2 * (t)) - (2 * (s)) * (t * t)) * 6,
    ;
    assert(bernstein_slope(4, 3, t) == 4 * ((3 * s * t * t) - (t * t * t))) by (nonlinear_arith)
        requires
            bernstein_slope(4, 3, t) == ((s) * (3 * (t * t)) - (1 * 1) * (t * t * t)) * 4,
    ;
    assert(bernstein_slope(4, 4, t) == 4 * ((t * t * t) - (0))) by (nonlinear_arith)
        requires
            bernstein_slope(4, 4, t) == (1 * (4 * (t * t * t)) - (0) * (t * t * t * t)) * 1,
    ;
}

/// `weighted_sum` written out for one to five terms.
proof fn lemma_sum_terms(terms: Seq<(int, int)>)
    requires
        1 <= terms.len() <= 5,
    ensures
        terms.len() == 1 ==> weighted_sum(terms) == terms[0].1 * terms[0].0,
        terms.len() == 2 ==> weighted_sum(terms) == terms[0].1 * terms[0].0 + terms[1].1 * terms[1].0,
        terms.len() == 3 ==> weighted_sum(terms) == terms[0].1 * terms[0].0 + terms[1].1 * terms[1].0 + terms[2].1
            * terms[2].0,
        terms.len() == 4 ==> weighted_sum(terms) == terms[0].1 * terms[0].0 + terms[1].1 * terms[1].0 + terms[2].1
            * terms[2].0 + terms[3].1 * terms[3].0,
        terms.len() == 5 ==> weighted_sum(terms) == terms[0].1 * terms[0].0 + terms[1].1 * terms[1].0 + terms[2].1
            * terms[2].0 + terms[3].1 * terms[3].0 + terms[4].1 * terms[4].0,
{
    reveal_with_fuel(weighted_sum, 6);
    assert(terms.drop_last() =~= terms.take(terms.len() - 1));
}

/// `w (n (a - b)) == n (w a) - n (w b)`.
proof fn lemma_scale_difference(w: int, n: int, a: int, b: int)
    ensures
        w * (n * (a - b)) == n * (w * a) - n * (w * b),
{
    assert(w * (n * (a - b)) == n * (w * a) - n * (w * b)) by (nonlinear_arith);
}

/// `(n (x - y)) p == n (x p) - n (y p)`.
proof fn lemma_difference_scale(n: int, x: int, y: int, p: int)
    ensures
        (n * (x - y)) * p == n * (x * p) - n * (y * p),
{
    assert((n * (x - y)) * p == n * (x * p) - n * (y * p)) by (nonlinear_arith);
}

/// The curve on the control values `n (p[i + 1] - p[i])` is the derivative of
/// the curve on `p`, for degrees two to four.
pub proof fn lemma_hodograph(p: Seq<int>, t: int)
    requires
        3 <= p.len() <= 5,
    ensures
        bezier_value(t, hodograph(p)) == bezier_slope(t, p),
{
    let h = hodograph(p);
    lemma_value_sum(t, h);
    lemma_sum_terms(Seq::new(p.len(), |i: int| (p[i], bernstein_slope((p.len() - 1) as nat, i as nat, t))));
    lemma_bernstein_slopes(t);
    if p.len() == 3 {
        assert(bezier_value(t, h) == bernstein(1, 0, t) * h[0] + bernstein(1, 1, t) * h[1]);
        assert(bezier_slope(t, p) == bernstein_slope(2, 0, t) * p[0] + bernstein_slope(2, 1, t) * p[1] + bernstein_slope(2, 2, t) * p[2]);
        lemma_scale_difference(bernstein(1, 0, t), 2, p[1], p[0]);
        lemma_scale_difference(bernstein(1, 1, t), 2, p[2], p[1]);
        lemma_difference_scale(2, 0, bernstein(1, 0, t), p[0]);
        lemma_difference_scale(2, bernstein(1, 0, t), bernstein(1, 1, t), p[1]);
        lemma_difference_scale(2, bernstein(1, 1, t), 0, p[2]);
    } else if p.len() == 4 {
        assert(bezier_value(t, h) == bernstein(2, 0, t) * h[0] + bernstein(2, 1, t) * h[1] + bernstein(2, 2, t) * h[2]);
        assert(bezier_slope(t, p) == bernstein_slope(3, 0, t) * p[0] + bernstein_slope(3, 1, t) * p[1] + bernstein_slope(3, 2, t) * p[2] + bernstein_slope(3, 3, t) * p[3]);
        lemma_scale_difference(bernstein(2, 0, t), 3, p[1], p[0]);
        lemma_scale_difference(bernstein(2, 1, t), 3, p[2], p[1]);
        lemma_scale_difference(bernstein(2, 2, t), 3, p[3], p[2]);
        lemma_difference_scale(3, 0, bernstein(2, 0, t), p[0]);
        lemma_difference_scale(3, bernstein(2, 0, t), bernstein(2, 1, t), p[1]);
        lemma_difference_scale(3, bernstein(2, 1, t), bernstein(2, 2, t), p[2]);
        lemma_difference_scale(3, bernstein(2, 2, t), 0, p[3]);
    } else if p.len() == 5 {
        assert(bezier_value(t, h) == bernstein(3, 0, t) * h[0] + bernstein(3, 1, t) * h[1] + bernstein(3, 2, t) * h[2] + bernstein(3, 3, t) * h[3]);
        assert(bezier_slope(t, p) == bernstein_slope(4, 0, t) * p[0] + bernstein_slope(4, 1, t) * p[1] + bernstein_slope(4, 2, t) * p[2] + bernstein_slope(4, 3, t) * p[3] + bernstein_slope(4, 4, t) * p[4]);
        lemma_scale_difference(bernstein(3, 0, t), 4, p[1], p[0]);
        lemma_scale_difference(bernstein(3, 1, t), 4, p[2], p[1]);
        lemma_scale_difference(bernstein(3, 2, t), 4, p[3], p[2]);
        lemma_scale_difference(bernstein(3, 3, t), 4, p[4], p[3]);
        lemma_difference_scale(4, 0, bernstein(3, 0, t), p[0]);
        lemma_difference_scale(4, bernstein(3, 0, t), bernstein(3, 1, t), p[1]);
        lemma_difference_scale(4, bernstein(3, 1, t), bernstein(3, 2, t), p[2]);
        lemma_difference_scale(4, bernstein(3, 2, t), bernstein(3, 3, t), p[3]);
        lemma_difference_scale(4, bernstein(3, 3, t), 0, p[4]);
    }
}

/// On `i64` control values, adding `d` to itself `n` times makes `n d`.
proof fn lemma_repeated_sum_i64(d: i64, n: nat)
    requires
        1 <= n,
        repeated_sum_defined(d, n),
    ensures
        repeated_sum(d, n) as int == n * d,
    decreases n,
{
    if n > 1 {
        lemma_repeated_sum_i64(d, (n - 1) as nat);
        assert((n - 1) * d + d == n * d) by (nonlinear_arith);
    }
}

/// The derivative curve that `ddt` builds on `i64` control values samples to
/// the derivative of the original curve, for degrees two to four.
pub proof fn lemma_derivative_consistency(p: Seq<i64>, t: int)
    requires
        3 <= p.len() <= 5,
        derivative_defined(p),
    ensures
        bezier_value(t, points::<i64, i64>(derivative_controls(p))) == bezier_slope(t, points::<i64, i64>(p)),
{
    let q = points::<i64, i64>(p);
    let n = (p.len() - 1) as nat;
    assert forall|i: int| 0 <= i < n implies #[trigger] points::<i64, i64>(derivative_controls(p))[i] == hodograph(q)[i] by {
        assert(derivative_step_defined(p, i));
        lemma_repeated_sum_i64((p[i + 1] - p[i]) as i64, n);
    }
    assert(points::<i64, i64>(derivative_controls(p)) =~= hodograph(q));
    lemma_hodograph(q, t);
}

/// `x * (y * z) == y * (x * z)`.
proof fn lemma_mul_swap(x: int, y: int, z: int)
    ensures
        x * (y * z) == y * (x * z),
{
    assert(x * (y * z) == y * (x * z)) by (nonlinear_arith);
}

/// Multiplication distributes over a sum of three or four terms.
proof fn lemma_distribute(x: int, a: int, b: int, c: int, d: int)
    ensures
        x * (a + b + c) == x * a + x * b + x * c,
        x * (a + b + c + d) == x * a + x * b + x * c + x * d,
{
    assert(x * (a + b + c) == x * a + x * b + x * c) by (nonlinear_arith);
    assert(x * (a + b + c + d) == x * a + x * b + x * c + x * d) by (nonlinear_arith);
}

/// The patch value does not depend on which parameter is reduced first.
pub proof fn lemma_patch_separable(grid: Seq<Seq<int>>, t: int, u: int)
    requires
        3 <= grid.len() <= 4,
        forall|i: int| 0 <= i < grid.len() ==> #[trigger] grid[i].len() == grid.len(),
    ensures
        patch_value(t, u, grid) == patch_value_by_columns(t, u, grid),
{
    let n = grid.len();
    let rv = row_values(t, grid);
    let cv = Seq::new(grid[0].len(), |j: int| bezier_value(u, column(grid, j)));
    lemma_value_sum(u, rv);
    lemma_value_sum(t, cv);
    assert forall|i: int| 0 <= i < n implies #[trigger] rv[i] == bezier_value(t, grid[i]) by {}
    assert forall|j: int| 0 <= j < n implies #[trigger] cv[j] == bezier_value(u, column(grid, j)) by {}
    if n == 3 {
        lemma_value_sum(t, grid[0]);
        lemma_value_sum(t, grid[1]);
        lemma_value_sum(t, grid[2]);
        lemma_value_sum(u, column(grid, 0));
        lemma_value_sum(u, column(grid, 1));
        lemma_value_sum(u, column(grid, 2));
        let (a0, a1, a2) = (bernstein(2, 0, u), bernstein(2, 1, u), bernstein(2, 2, u));
        let (b0, b1, b2) = (bernstein(2, 0, t), bernstein(2, 1, t), bernstein(2, 2, t));
        let (g00, g01, g02) = (grid[0][0], grid[0][1], grid[0][2]);
        let (g10, g11, g12) = (grid[1][0], grid[1][1], grid[1][2]);
        let (g20, g21, g22) = (grid[2][0], grid[2][1], grid[2][2]);
        lemma_distribute(a0, b0 * g00, b1 * g01, b2 * g02, 0);
        lemma_distribute(a1, b0 * g10, b1 * g11, b2 * g12, 0);
        lemma_distribute(a2, b0 * g20, b1 * g21, b2 * g22, 0);
        lemma_distribute(b0, a0 * g00, a1 * g10, a2 * g20, 0);
        lemma_distribute(b1, a0 * g01, a1 * g11, a2 * g21, 0);
        lemma_distribute(b2, a0 * g02, a1 * g12, a2 * g22, 0);
        lemma_mul_swap(a0, b0, g00);
        lemma_mul_swap(a0, b1, g01);
        lemma_mul_swap(a0, b2, g02);
        lemma_mul_swap(a1, b0, g10);
        lemma_mul_swap(a1, b1, g11);
        lemma_mul_swap(a1, b2, g12);
        lemma_mul_swap(a2, b0, g20);
        lemma_mul_swap(a2, b1, g21);
        lemma_mul_swap(a2, b2, g22);
    } else {
        lemma_value_sum(t, grid[0]);
        lemma_value_sum(t, grid[1]);
        lemma_value_sum(t, grid[2]);
        lemma_value_sum(t, grid[3]);
        lemma_value_sum(u, column(grid, 0));
        lemma_value_sum(u, column(grid, 1));
        lemma_value_sum(u, column(grid, 2));
        lemma_value_sum(u, column(grid, 3));
        let (a0, a1, a2, a3) = (bernstein(3, 0, u), bernstein(3, 1, u), bernstein(3, 2, u), bernstein(3, 3, u));
        let (b0, b1, b2, b3) = (bernstein(3, 0, t), bernstein(3, 1, t), bernstein(3, 2, t), bernstein(3, 3, t));
        let (g00, g01, g02, g03) = (grid[0][0], grid[0][1], grid[0][2], grid[0][3]);
        let (g10, g11, g12, g13) = (grid[1][0], grid[1][1], grid[1][2], grid[1][3]);
        let (g20, g21, g22, g23) = (grid[2][0], grid[2][1], grid[2][2], grid[2][3]);
        let (g30, g31, g32, g33) = (grid[3][0], grid[3][1], grid[3][2], grid[3][3]);
        lemma_distribute(a0, b0 * g00, b1 * g01, b2 * g02, b3 * g03);
        lemma_distribute(a1, b0 * g10, b1 * g11, b2 * g12, b3 * g13);
        lemma_distribute(a2, b0 * g20, b1 * g21, b2 * g22, b3 * g23);
        lemma_distribute(a3, b0 * g30, b1 * g31, b2 * g32, b3 * g33);
        lemma_distribute(b0, a0 * g00, a1 * g10, a2 * g20, a3 * g30);
        lemma_distribute(b1, a0 * g01, a1 * g11, a2 * g21, a3 * g31);
        lemma_distribute(b2, a0 * g02, a1 * g12, a2 * g22, a3 * g32);
        lemma_distribute(b3, a0 * g03, a1 * g13, a2 * g23, a3 * g33);
        lemma_mul_swap(a0, b0, g00);
        lemma_mul_swap(a0, b1, g01);
        lemma_mul_swap(a0, b2, g02);
        lemma_mul_swap(a0, b3, g03);
        lemma_mul_swap(a1, b0, g10);
        lemma_mul_swap(a1, b1, g11);
        lemma_mul_swap(a1, b2, g12);
        lemma_mul_swap(a1, b3, g13);
        lemma_mul_swap(a2, b0, g20);
        lemma_mul_swap(a2, b1, g21);
        lemma_mul_swap(a2, b2, g22);
        lemma_mul_swap(a2, b3, g23);
        lemma_mul_swap(a3, b0, g30);
        lemma_mul_swap(a3, b1, g31);
        lemma_mul_swap(a3, b2, g32);
        lemma_mul_swap(a3, b3, g33);
    }
}

} // verus!
