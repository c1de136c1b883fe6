//! Scalar arithmetic.
//!
//! The optimizers are generic over the scalar type, a floating-point number
//! that `num_traits::Float` describes. Rounding makes the value of a
//! floating-point operation a matter of the type and of the machine, so this
//! module states nothing about such a value. It gives each operation a
//! relation that holds between the operands and every value the operation may
//! return, and the update rules of the optimizers are stated over those
//! relations: which operation is applied to which operands, in which order.
//!
//! The operations of the scalar type are taken to return; those of the
//! primitive floating-point types do, for every operand.

use num_traits::Float;
use vstd::prelude::*;

verus! {

/// `r` is a value that the additive identity of `S` may be.
pub closed spec fn is_zero<S: Float>(r: S) -> bool {
    call_ensures(float_zero::<S>, (), r)
}

/// `r` is a value that the multiplicative identity of `S` may be.
pub closed spec fn is_one<S: Float>(r: S) -> bool {
    call_ensures(float_one::<S>, (), r)
}

/// `r` is a value that `a + b` may have.
pub closed spec fn is_sum<S: Float>(a: S, b: S, r: S) -> bool {
    call_ensures(float_sum::<S>, (a, b), r)
}

/// `r` is a value that `a - b` may have.
pub closed spec fn is_difference<S: Float>(a: S, b: S, r: S) -> bool {
    call_ensures(float_difference::<S>, (a, b), r)
}

/// `r` is a value that `a * b` may have.
pub closed spec fn is_product<S: Float>(a: S, b: S, r: S) -> bool {
    call_ensures(float_product::<S>, (a, b), r)
}

/// `r` is a value that `a / b` may have.
pub closed spec fn is_quotient<S: Float>(a: S, b: S, r: S) -> bool {
    call_ensures(float_quotient::<S>, (a, b), r)
}

/// `r` is a value that the square root of `a` may have.
pub closed spec fn is_square_root<S: Float>(a: S, r: S) -> bool {
    call_ensures(float_square_root::<S>, (a,), r)
}

/// `r` is a value that `a` raised to the power `b` may have.
pub closed spec fn is_power<S: Float>(a: S, b: S, r: S) -> bool {
    call_ensures(float_power::<S>, (a, b), r)
}

/// Calls `num_traits::Zero::zero`, which `num_traits::Float` requires of `S`.
/// Trusted without a claim: nothing is stated of the value returned.
#[verifier::external_body]
fn float_zero<S: Float>() -> (r: S) {
    S::zero()
}

/// Calls `num_traits::One::one`, which `num_traits::Float` requires of `S`.
/// Trusted without a claim: nothing is stated of the value returned.
#[verifier::external_body]
fn float_one<S: Float>() -> (r: S) {
    S::one()
}

/// Calls the `+` that `num_traits::Float` requires of `S` through
/// `num_traits::NumOps`; on the primitive floats it does not panic.
/// Trusted without a claim: nothing is stated of the value returned.
#[verifier::external_body]
fn float_sum<S: Float>(a: S, b: S) -> (r: S) {
    a + b
}

/// Calls the `-` that `num_traits::Float` requires of `S` through
/// `num_traits::NumOps`; on the primitive floats it does not panic.
/// Trusted without a claim: nothing is stated of the value returned.
#[verifier::external_body]
fn float_difference<S: Float>(a: S, b: S) -> (r: S) {
    a - b
}

/// Calls the `*` that `num_traits::Float` requires of `S` through
/// `num_traits::NumOps`; on the primitive floats it does not panic.
/// Trusted without a claim: nothing is stated of the value returned.
#[verifier::external_body]
fn float_product<S: Float>(a: S, b: S) -> (r: S) {
    a * b
}

/// Calls the `/` that `num_traits::Float` requires of `S` through
/// `num_traits::NumOps`; on the primitive floats a zero divisor gives an
/// infinity or a NaN, and no panic.
/// Trusted without a claim: nothing is stated of the value returned.
#[verifier::external_body]
fn float_quotient<S: Float>(a: S, b: S) -> (r: S) {
    a / b
}

/// Calls `num_traits::Float::sqrt`, which gives NaN for a negative number and
/// does not panic.
/// Trusted without a claim: nothing is stated of the value returned.
#[verifier::external_body]
fn float_square_root<S: Float>(a: S) -> (r: S) {
    a.sqrt()
}

/// Calls `num_traits::Float::powf`, which does not panic.
/// Trusted without a claim: nothing is stated of the value returned.
#[verifier::external_body]
fn float_power<S: Float>(a: S, b: S) -> (r: S) {
    a.powf(b)
}

/// The additive identity of `S`.
pub fn zero<S: Float>() -> (r: S)
    ensures
        is_zero(r),
{
    float_zero()
}

/// The multiplicative identity of `S`.
pub fn one<S: Float>() -> (r: S)
    ensures
        is_one(r),
{
    float_one()
}

/// `a + b`.
pub fn sum<S: Float>(a: S, b: S) -> (r: S)
    ensures
        is_sum(a, b, r),
{
    float_sum(a, b)
}

/// `a - b`.
pub fn difference<S: Float>(a: S, b: S) -> (r: S)
    ensures
        is_difference(a, b, r),
{
    float_difference(a, b)
}

/// `a * b`.
pub fn product<S: Float>(a: S, b: S) -> (r: S)
    ensures
        is_product(a, b, r),
{
    float_product(a, b)
}

/// `a / b`.
pub fn quotient<S: Float>(a: S, b: S) -> (r: S)
    ensures
        is_quotient(a, b, r),
{
    float_quotient(a, b)
}

/// The square root of `a`.
pub fn square_root<S: Float>(a: S) -> (r: S)
    ensures
        is_square_root(a, r),
{
    float_square_root(a)
}

/// `a` raised to the power `b`.
pub fn power<S: Float>(a: S, b: S) -> (r: S)
    ensures
        is_power(a, b, r),
{
    float_power(a, b)
}

/// `after` is a value that `t + 1` may have.
pub open spec fn is_successor<S: Float>(t: S, after: S) -> bool {
    exists|unit: S| is_one(unit) && #[trigger] is_sum(t, unit, after)
}

/// Each operation has one value for given operands: calling it twice with the
/// same operands gives the same scalar. The library does not claim this of a
/// scalar type. Laws that compare two runs ask for it.
pub open spec fn single_valued<S: Float>() -> bool {
    &&& forall|r1: S, r2: S| #[trigger] is_zero(r1) && #[trigger] is_zero(r2) ==> r1 == r2
    &&& forall|r1: S, r2: S| #[trigger] is_one(r1) && #[trigger] is_one(r2) ==> r1 == r2
    &&& forall|a: S, b: S, r1: S, r2: S|
        #[trigger] is_sum(a, b, r1) && #[trigger] is_sum(a, b, r2) ==> r1 == r2
    &&& forall|a: S, b: S, r1: S, r2: S|
        #[trigger] is_difference(a, b, r1) && #[trigger] is_difference(a, b, r2) ==> r1 == r2
    &&& forall|a: S, b: S, r1: S, r2: S|
        #[trigger] is_product(a, b, r1) && #[trigger] is_product(a, b, r2) ==> r1 == r2
    &&& forall|a: S, b: S, r1: S, r2: S|
        #[trigger] is_quotient(a, b, r1) && #[trigger] is_quotient(a, b, r2) ==> r1 == r2
    &&& forall|a: S, r1: S, r2: S|
        #[trigger] is_square_root(a, r1) && #[trigger] is_square_root(a, r2) ==> r1 == r2
    &&& forall|a: S, b: S, r1: S, r2: S|
        #[trigger] is_power(a, b, r1) && #[trigger] is_power(a, b, r2) ==> r1 == r2
}

/// `x` is a value built for the whole number `n`: zero and one are the
/// identities of `S`, an even number is its half added to itself, an odd
/// number is its predecessor plus one. Every intermediate value is a whole
/// number with no more significant bits than `n` has, so the sums are exact
/// in a binary floating-point type whose significand holds those bits.
pub open spec fn is_whole<S: Float>(n: nat, x: S) -> bool
    decreases n,
{
    if n == 0 {
        is_zero(x)
    } else if n == 1 {
        is_one(x)
    } else if n % 2 == 0 {
        exists|half: S| is_whole(n / 2, half) && #[trigger] is_sum(half, half, x)
    } else {
        exists|before: S, unit: S|
            is_whole((n - 1) as nat, before) && is_one(unit) && #[trigger] is_sum(before, unit, x)
    }
}

/// `x` is a value built for the fraction `numerator / denominator`: the
/// quotient of the two whole numbers. With exact whole numbers and a correctly
/// rounded division this is the scalar nearest to the fraction.
pub open spec fn is_ratio<S: Float>(numerator: nat, denominator: nat, x: S) -> bool {
    exists|n: S, d: S|
        is_whole(numerator, n) && is_whole(denominator, d) && #[trigger] is_quotient(n, d, x)
}

/// Builds the scalar for a whole number by doubling.
pub fn whole<S: Float>(n: u64) -> (r: S)
    ensures
        is_whole(n as nat, r),
    decreases n,
{
    if n == 0 {
        zero()
    } else if n == 1 {
        one()
    } else if n % 2 == 0 {
        let half: S = whole(n / 2);
        sum(half, half)
    } else {
        let before: S = whole(n - 1);
        let unit: S = one();
        sum(before, unit)
    }
}

/// Builds the scalar for a fraction of two whole numbers.
pub fn ratio<S: Float>(numerator: u64, denominator: u64) -> (r: S)
    ensures
        is_ratio(numerator as nat, denominator as nat, r),
{
    let n: S = whole(numerator);
    let d: S = whole(denominator);
    quotient(n, d)
}

} // verus!
