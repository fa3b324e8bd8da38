//! Forward and inverse affine interpolation, independent of the curve types.
use core::ops::{Add, Div, Mul, Sub};
use vstd::prelude::*;

verus! {

/// The type of `T - U`.
pub type Dif<T, U = T> = <T as Sub<U>>::Output;

/// The type of `T / U`.
pub type Quot<T, U = T> = <T as Div<U>>::Output;

/// The type of `T * U`.
pub type Prod<T, U = T> = <T as Mul<U>>::Output;

/// The type of `T + U`.
pub type Sum<T, U = T> = <T as Add<U>>::Output;

/// `t (b - a) + a`: the point at fraction `t` of the way from `a` to `b`.
///
/// The types of `t (b - a)` and of the result are those that the operators
/// give, so `t` may be a plain fraction while `a` and `b` carry a unit.
pub fn lerp<T: Copy + Sub + Mul<Dif<T>>>(t: T, a: T, b: T) -> (r: Sum<Prod<T, Dif<T>>, T>) where
    Prod<T, Dif<T>>: Add<T>,
    requires
        <T as vstd::std_specs::ops::SubSpec>::obeys_sub_spec(),
        <T as vstd::std_specs::ops::MulSpec<Dif<T>>>::obeys_mul_spec(),
        <Prod<T, Dif<T>> as vstd::std_specs::ops::AddSpec<T>>::obeys_add_spec(),
        lerp_defined(t, a, b),
    ensures
        r == lerp_value(t, a, b),
{
    t * (b - a) + a
}

/// Every operation that `lerp(t, a, b)` makes is allowed.
pub open spec fn lerp_defined<T: Copy + Sub + Mul<Dif<T>>>(t: T, a: T, b: T) -> bool where
    Prod<T, Dif<T>>: Add<T>,
 {
    let d = vstd::std_specs::ops::SubSpec::sub_spec(b, a);
    &&& vstd::std_specs::ops::SubSpec::sub_req(b, a)
    &&& vstd::std_specs::ops::MulSpec::mul_req(t, d)
    &&& vstd::std_specs::ops::AddSpec::add_req(vstd::std_specs::ops::MulSpec::mul_spec(t, d), a)
}

/// `t (b - a) + a` as the operators of `T` define it.
pub open spec fn lerp_value<T: Copy + Sub + Mul<Dif<T>>>(t: T, a: T, b: T) -> Sum<Prod<T, Dif<T>>, T> where
    Prod<T, Dif<T>>: Add<T>,
 {
    let d = vstd::std_specs::ops::SubSpec::sub_spec(b, a);
    vstd::std_specs::ops::AddSpec::add_spec(vstd::std_specs::ops::MulSpec::mul_spec(t, d), a)
}

/// `(t - a) / (b - a)`: the fraction of the way from `a` to `b` at which `t`
/// lies. Where `a == b` the division follows the division of `Dif<T>`.
pub fn unlerp<T: Copy + Sub>(t: T, a: T, b: T) -> (r: Quot<Dif<T>>) where Dif<T>: Div,
    requires
        <T as vstd::std_specs::ops::SubSpec>::obeys_sub_spec(),
        <Dif<T> as vstd::std_specs::ops::DivSpec>::obeys_div_spec(),
        unlerp_defined(t, a, b),
    ensures
        r == unlerp_value(t, a, b),
{
    (t - a) / (b - a)
}

/// Every operation that `unlerp(t, a, b)` makes is allowed.
pub open spec fn unlerp_defined<T: Copy + Sub>(t: T, a: T, b: T) -> bool where Dif<T>: Div {
    &&& vstd::std_specs::ops::SubSpec::sub_req(t, a)
    &&& vstd::std_specs::ops::SubSpec::sub_req(b, a)
    &&& vstd::std_specs::ops::DivSpec::div_req(
        vstd::std_specs::ops::SubSpec::sub_spec(t, a),
        vstd::std_specs::ops::SubSpec::sub_spec(b, a),
    )
}

/// `(t - a) / (b - a)` as the operators of `T` define it.
pub open spec fn unlerp_value<T: Copy + Sub>(t: T, a: T, b: T) -> Quot<Dif<T>> where Dif<T>: Div {
    vstd::std_specs::ops::DivSpec::div_spec(
        vstd::std_specs::ops::SubSpec::sub_spec(t, a),
        vstd::std_specs::ops::SubSpec::sub_spec(b, a),
    )
}

/// `unlerp` as a method, for types whose differences and quotients are of
/// the same type.
pub trait Unlerp: Copy + Sub<Output = Self> + Div<Output = Self> {
    /// The fraction of the way from `a` to `b` at which `self` lies.
    fn unlerp(self, a: Self, b: Self) -> (r: Self)
        requires
            <Self as vstd::std_specs::ops::SubSpec>::obeys_sub_spec(),
            <Self as vstd::std_specs::ops::DivSpec>::obeys_div_spec(),
            vstd::std_specs::ops::SubSpec::sub_req(self, a),
            vstd::std_specs::ops::SubSpec::sub_req(b, a),
            vstd::std_specs::ops::DivSpec::div_req(
                vstd::std_specs::ops::SubSpec::sub_spec(self, a),
                vstd::std_specs::ops::SubSpec::sub_spec(b, a),
            ),
        ensures
            r == vstd::std_specs::ops::DivSpec::div_spec(
                vstd::std_specs::ops::SubSpec::sub_spec(self, a),
                vstd::std_specs::ops::SubSpec::sub_spec(b, a),
            ),
    ;
}

impl Unlerp for i64 {
    fn unlerp(self, a: i64, b: i64) -> (r: i64) {
        unlerp(self, a, b)
    }
}

/// For `a != b`, interpolating to the fraction `t` and taking the fraction
/// back gives `t` again, whenever the interpolation stays in range.
pub proof fn lemma_unlerp_lerp(t: i64, a: i64, b: i64)
    requires
        a != b,
        lerp_defined(t, a, b),
    ensures
        unlerp_defined(lerp_value(t, a, b), a, b),
        unlerp_value(lerp_value(t, a, b), a, b) == t,
{
    let d = b - a;
    let x = t * d;
    assert(lerp_value(t, a, b) - a == x);
    assert(x / d == t) by (nonlinear_arith)
        requires
            d != 0,
            x == t * d,
    ;
    if x < 0 {
        assert((-x) / d == -t) by (nonlinear_arith)
            requires
                d != 0,
                x == t * d,
        ;
    }
}

} // verus!
