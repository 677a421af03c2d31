use vstd::arithmetic::div_mod::{
    lemma_add_mod_noop, lemma_mod_bound, lemma_mod_twice, lemma_mul_mod_noop, lemma_small_mod,
    lemma_sub_mod_noop,
};
use vstd::prelude::*;

verus! {

/// The modulus of the ring `Z / 2^64 Z`.
pub open spec fn modulus() -> int {
    0x1_0000_0000_0000_0000
}

/// The representative in `0 .. 2^64` of the integer `x` modulo `2^64`.
pub open spec fn wrap(x: int) -> u64 {
    (x % modulus()) as u64
}

/// `wrap(x)` is `x` modulo `2^64`; a value already in range is left alone.
pub proof fn lemma_wrap_basics(x: int)
    ensures
        wrap(x) as int == x % modulus(),
        0 <= x < modulus() ==> wrap(x) == x,
        wrap(wrap(x) as int) == wrap(x),
{
    lemma_mod_bound(x, modulus());
    if 0 <= x < modulus() {
        lemma_small_mod(x as nat, modulus() as nat);
    }
    lemma_mod_twice(x, modulus());
}

/// Reducing an operand first does not change a wrapped sum, difference or
/// product.
pub proof fn lemma_wrap_ops(a: int, b: int)
    ensures
        wrap(wrap(a) + b) == wrap(a + b),
        wrap(a + wrap(b)) == wrap(a + b),
        wrap(wrap(a) - b) == wrap(a - b),
        wrap(a - wrap(b)) == wrap(a - b),
        wrap(wrap(a) * b) == wrap(a * b),
        wrap(a * wrap(b)) == wrap(a * b),
{
    let m = modulus();
    lemma_wrap_basics(a);
    lemma_wrap_basics(b);
    lemma_mod_twice(a, m);
    lemma_mod_twice(b, m);
    lemma_add_mod_noop(a % m, b, m);
    lemma_add_mod_noop(a, b, m);
    lemma_add_mod_noop(a, b % m, m);
    lemma_sub_mod_noop(a % m, b, m);
    lemma_sub_mod_noop(a, b, m);
    lemma_sub_mod_noop(a, b % m, m);
    lemma_mul_mod_noop(a % m, b, m);
    lemma_mul_mod_noop(a, b, m);
    lemma_mul_mod_noop(a, b % m, m);
}

/// Accumulating three values from zero with wrapping additions gives their
/// wrapped sum.
pub proof fn lemma_wrap_sum3(x: u64, y: u64, z: u64)
    ensures
        wrap(wrap(wrap(0 + x) + y) + z) == wrap(x + y + z),
{
    lemma_wrap_basics(x as int);
    lemma_wrap_ops(x as int, y as int);
    lemma_wrap_ops(x + y, z as int);
}

/// Minimal ring abstraction.
pub trait Ring: Copy + Clone + Eq + Send + Sync + 'static + core::ops::Add<
    Output = Self,
> + core::ops::Sub<Output = Self> + core::ops::Mul<Output = Self> {
    fn zero() -> Self;

    fn one() -> Self;
}

impl Ring for u64 {
    fn zero() -> (r: u64)
        ensures
            r == 0,
    {
        0
    }

    fn one() -> (r: u64)
        ensures
            r == 1,
    {
        1
    }
}

/// Wrapping `u64` arithmetic over `Z / 2^64 Z`.
#[derive(Clone, Copy, Debug, PartialEq, Eq, Structural)]
pub struct WrappingU64;

impl WrappingU64 {
    pub fn add(lhs: u64, rhs: u64) -> (r: u64)
        ensures
            r == wrap(lhs + rhs),
    {
        lhs.wrapping_add(rhs)
    }

    pub fn sub(lhs: u64, rhs: u64) -> (r: u64)
        ensures
            r == wrap(lhs - rhs),
    {
        lhs.wrapping_sub(rhs)
    }

    pub fn mul(lhs: u64, rhs: u64) -> (r: u64)
        ensures
            r == wrap(lhs * rhs),
    {
        lhs.wrapping_mul(rhs)
    }
}

} // verus!
