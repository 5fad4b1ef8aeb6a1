//! Positions of the highest and the lowest set bit of a 256-bit word.

use uniswap_v3_math::error::UniswapV3MathError;
use vstd::arithmetic::power2::pow2;
use vstd::prelude::*;

use crate::primitives::bits::bit_is_set;
use crate::primitives::U256;

verus! {

/// Calls `uniswap_v3_math::bit_math::most_significant_bit`.
///
/// Trusted: the call fails exactly on zero, and otherwise returns 255 minus
/// the number of leading zero bits, that is the `b` with `2^b <= x < 2^(b+1)`.
#[verifier::external_body]
fn most_significant_bit_outside(x: U256) -> (r: Result<u8, UniswapV3MathError>)
    ensures
        r is Ok <==> x@ != 0,
        r matches Ok(b) ==> pow2(b as nat) <= x@ < pow2(b as nat + 1),
{
    uniswap_v3_math::bit_math::most_significant_bit(
        alloy::primitives::U256::from_limbs(x.into_limbs()),
    )
}

/// Calls `uniswap_v3_math::bit_math::least_significant_bit`.
///
/// Trusted: the call fails exactly on zero, and otherwise returns the number
/// of trailing zero bits, that is the `b` with bit `b` set and `x` a multiple
/// of `2^b`.
#[verifier::external_body]
fn least_significant_bit_outside(x: U256) -> (r: Result<u8, UniswapV3MathError>)
    ensures
        r is Ok <==> x@ != 0,
        r matches Ok(b) ==> bit_is_set(x@, b as nat) && x@ % pow2(b as nat) == 0,
{
    uniswap_v3_math::bit_math::least_significant_bit(
        alloy::primitives::U256::from_limbs(x.into_limbs()),
    )
}

/// The index of the highest set bit, or `None` for zero.
pub fn most_significant_bit(x: U256) -> (r: Option<u8>)
    ensures
        r is Some <==> x@ != 0,
        r matches Some(b) ==> pow2(b as nat) <= x@ < pow2(b as nat + 1),
{
    match most_significant_bit_outside(x) {
        Ok(b) => Some(b),
        Err(_) => None,
    }
}

/// The index of the lowest set bit, or `None` for zero.
pub fn least_significant_bit(x: U256) -> (r: Option<u8>)
    ensures
        r is Some <==> x@ != 0,
        r matches Some(b) ==> bit_is_set(x@, b as nat) && x@ % pow2(b as nat) == 0,
{
    match least_significant_bit_outside(x) {
        Ok(b) => Some(b),
        Err(_) => None,
    }
}

} // verus!
