//! Signed 56-bit and unsigned 160-bit accumulators that wrap.

use vstd::prelude::*;

use crate::primitives::u256::{
    lemma_from_nat_view, lemma_halves, two_pow_160, two_pow_256, u256_from_nat, U256,
};

verus! {

/// 2^55.
pub open spec fn two_pow_55() -> int {
    0x80_0000_0000_0000
}

/// 2^56.
pub open spec fn two_pow_56() -> int {
    0x100_0000_0000_0000
}

/// A number wrapped into the signed 56-bit range.
pub open spec fn wrap_i56(x: int) -> int {
    (x + two_pow_55()) % two_pow_56() - two_pow_55()
}

/// A number wrapped into the unsigned 160-bit range.
pub open spec fn wrap_u160(x: int) -> nat {
    (x % (two_pow_160() as int)) as nat
}

/// A number wrapped into the unsigned 256-bit range.
pub open spec fn wrap_u256(x: int) -> nat {
    (x % (two_pow_256() as int)) as nat
}

/// A number wrapped into the unsigned 32-bit range.
pub open spec fn wrap_u32(x: int) -> nat {
    (x % 0x1_0000_0000) as nat
}

/// `a + b` wrapped to 256 bits.
pub open spec fn add_u256(a: U256, b: U256) -> U256 {
    u256_from_nat(wrap_u256((a@ + b@) as int))
}

/// `a - b` wrapped to 256 bits.
pub open spec fn sub_u256(a: U256, b: U256) -> U256 {
    u256_from_nat(wrap_u256(a@ - b@))
}

/// `a + b` wrapped to 160 bits.
pub open spec fn add_u160(a: U256, b: U256) -> U256 {
    u256_from_nat(wrap_u160((a@ + b@) as int))
}

/// `a - b` wrapped to 160 bits.
pub open spec fn sub_u160(a: U256, b: U256) -> U256 {
    u256_from_nat(wrap_u160(a@ - b@))
}

/// Whether a value lies in the signed 56-bit range.
pub open spec fn is_i56(x: int) -> bool {
    -two_pow_55() <= x < two_pow_55()
}

/// Whether a value lies in the unsigned 160-bit range.
pub open spec fn is_u160(x: nat) -> bool {
    x < two_pow_160()
}

/// Subtracting a difference from what it was taken from gives back what
/// was taken, for a value in the signed 56-bit range.
pub proof fn lemma_sub_i56_twice(a: int, x: int)
    requires
        is_i56(x),
    ensures
        wrap_i56(a - wrap_i56(a - x)) == x,
{
    let h = two_pow_55();
    let m = two_pow_56();
    vstd::arithmetic::div_mod::lemma_sub_mod_noop_right(a + 2 * h, a - x + h, m);
    vstd::arithmetic::div_mod::lemma_small_mod((x + h) as nat, m as nat);
}

/// Subtracting a difference from what it was taken from gives back what
/// was taken, for a value below the modulus.
pub proof fn lemma_sub_mod_twice(a: int, x: int, m: int)
    requires
        0 <= x < m,
    ensures
        (a - (a - x) % m) % m == x,
{
    vstd::arithmetic::div_mod::lemma_sub_mod_noop_right(a, a - x, m);
    vstd::arithmetic::div_mod::lemma_small_mod(x as nat, m as nat);
}

/// Wraps a value of at most about 100 bits into the signed 56-bit range.
pub fn wrap_to_i56(x: i128) -> (r: i64)
    requires
        -0x10_0000_0000_0000_0000_0000_0000 <= x <= 0x10_0000_0000_0000_0000_0000_0000,
    ensures
        r == wrap_i56(x as int),
        is_i56(r as int),
{
    let shifted: i128 = x + 0x10_0000_0000_0000_0000_0000_0000i128 + 0x80_0000_0000_0000i128;
    proof {
        vstd::arithmetic::div_mod::lemma_mod_multiples_vanish(
            0x1000_0000_0000,
            x + two_pow_55(),
            two_pow_56(),
        );
    }
    let wrapped: i128 = shifted % 0x100_0000_0000_0000i128 - 0x80_0000_0000_0000i128;
    wrapped as i64
}

/// The sum of two values, wrapped into the signed 56-bit range.
pub fn wrapping_add_i56(a: i64, b: i64) -> (r: i64)
    ensures
        r == wrap_i56(a + b),
        is_i56(r as int),
{
    wrap_to_i56(a as i128 + b as i128)
}

/// The difference of two values, wrapped into the signed 56-bit range.
pub fn wrapping_sub_i56(a: i64, b: i64) -> (r: i64)
    ensures
        r == wrap_i56(a - b),
        is_i56(r as int),
{
    wrap_to_i56(a as i128 - b as i128)
}

/// The sum of two unsigned values, wrapped to 256 bits.
pub fn wrapping_add_u256(a: U256, b: U256) -> (r: U256)
    ensures
        r == add_u256(a, b),
{
    broadcast use lemma_from_nat_view;

    a.wrapping_add(b)
}

/// The difference of two unsigned values, wrapped to 256 bits.
pub fn wrapping_sub_u256(a: U256, b: U256) -> (r: U256)
    ensures
        r == sub_u256(a, b),
{
    broadcast use lemma_from_nat_view;

    a.wrapping_sub(b)
}

/// The difference of two 32-bit values, wrapped to 32 bits.
pub fn wrapping_sub_u32(a: u32, b: u32) -> (r: u32)
    ensures
        r == wrap_u32(a - b),
{
    if a >= b {
        a - b
    } else {
        proof {
            vstd::arithmetic::div_mod::lemma_mod_multiples_vanish(1, a - b, 0x1_0000_0000);
        }
        (a as u64 + 0x1_0000_0000u64 - b as u64) as u32
    }
}

/// The sum of two unsigned values, wrapped to 160 bits.
pub fn wrapping_add_u160(a: U256, b: U256) -> (r: U256)
    ensures
        r@ == wrap_u160((a@ + b@) as int),
        r@ < two_pow_160(),
        r == add_u160(a, b),
{
    broadcast use lemma_from_nat_view;

    let s: U256 = a.wrapping_add(b);
    proof {
        lemma_halves(a);
        lemma_halves(b);
        lemma_mod_of_mod((a@ + b@) as int);
    }
    s.low_160()
}

/// The difference of two unsigned values, wrapped to 160 bits.
pub fn wrapping_sub_u160(a: U256, b: U256) -> (r: U256)
    ensures
        r@ == wrap_u160(a@ - b@),
        r@ < two_pow_160(),
        r == sub_u160(a, b),
{
    broadcast use lemma_from_nat_view;

    let d: U256 = a.wrapping_sub(b);
    proof {
        lemma_halves(a);
        lemma_halves(b);
        lemma_mod_of_mod(a@ - b@);
    }
    d.low_160()
}

/// Subtracting a 256-bit difference from what it was taken from gives
/// back what was taken.
pub proof fn lemma_sub_u256_twice(a: U256, x: U256)
    ensures
        sub_u256(a, sub_u256(a, x)) == x,
{
    let m = two_pow_256() as int;
    lemma_halves(x);
    lemma_mod_of_mod(a@ - x@);
    let once = sub_u256(a, x);
    lemma_from_nat_view(once);
    crate::primitives::u256::lemma_from_nat(wrap_u256(a@ - x@));
    assert(once@ == (a@ - x@) % m);
    lemma_sub_mod_twice(a@ as int, x@ as int, m);
    assert(wrap_u256(a@ - once@) == x@);
    crate::primitives::u256::lemma_from_nat(x@);
    crate::primitives::u256::lemma_view_injective(u256_from_nat(x@), x);
}

/// Subtracting a 160-bit difference from what it was taken from gives
/// back what was taken, for a value in the 160-bit range.
pub proof fn lemma_sub_u160_twice(a: U256, x: U256)
    requires
        is_u160(x@),
    ensures
        sub_u160(a, sub_u160(a, x)) == x,
{
    let m = two_pow_160() as int;
    lemma_mod_of_mod(a@ - x@);
    crate::primitives::u256::lemma_two_pows();
    let once = sub_u160(a, x);
    crate::primitives::u256::lemma_from_nat(wrap_u160(a@ - x@));
    assert(once@ == (a@ - x@) % m);
    lemma_sub_mod_twice(a@ as int, x@ as int, m);
    assert(wrap_u160(a@ - once@) == x@);
    crate::primitives::u256::lemma_from_nat(x@);
    crate::primitives::u256::lemma_view_injective(u256_from_nat(x@), x);
}

/// Reducing modulo 2^256 and then modulo 2^160 is reducing modulo 2^160.
pub proof fn lemma_mod_of_mod(x: int)
    ensures
        (x % (two_pow_256() as int)) % (two_pow_160() as int) == x % (two_pow_160() as int),
        0 <= x % (two_pow_160() as int) < two_pow_160(),
        0 <= x % (two_pow_256() as int) < two_pow_256(),
{
    let big = two_pow_256() as int;
    let small = two_pow_160() as int;
    vstd::arithmetic::div_mod::lemma_fundamental_div_mod(x, big);
    vstd::arithmetic::div_mod::lemma_mod_division_less_than_divisor(x, big);
    vstd::arithmetic::div_mod::lemma_mod_division_less_than_divisor(x, small);
    let q = x / big;
    assert(big == small * 0x1_0000_0000_0000_0000_0000_0000);
    assert(big * q == small * (0x1_0000_0000_0000_0000_0000_0000 * q)) by (nonlinear_arith)
        requires
            big == small * 0x1_0000_0000_0000_0000_0000_0000,
    ;
    vstd::arithmetic::div_mod::lemma_mod_multiples_vanish(
        0x1_0000_0000_0000_0000_0000_0000 * q,
        x % big,
        small,
    );
}

} // verus!
