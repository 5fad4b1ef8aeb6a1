//! Multiplication and division of 256-bit values with a 512-bit intermediate.

use uniswap_v3_math::error::UniswapV3MathError;
use vstd::arithmetic::power2::pow2;
use vstd::prelude::*;

use crate::errors::ArithmeticError;
use crate::primitives::u256::{lemma_two_pows, two_pow_256, U256};

verus! {

/// The error type of the fixed-point routines of `uniswap_v3_math`.
#[verifier::external_type_specification]
#[verifier::external_body]
pub struct ExUniswapV3MathError(UniswapV3MathError);

/// `floor(a * b / d)`, when `d` is not zero and the quotient fits 256 bits.
pub open spec fn mul_div_spec(a: nat, b: nat, d: nat) -> Option<nat> {
    if d != 0 && (a * b) / d < two_pow_256() {
        Some((a * b) / d)
    } else {
        None
    }
}

/// `ceil(a * b / d)` as a number.
pub open spec fn ceil_div(n: nat, d: nat) -> nat {
    if n % d == 0 {
        n / d
    } else {
        n / d + 1
    }
}

/// `ceil(a * b / d)`, when `d` is not zero and the quotient fits 256 bits.
pub open spec fn mul_div_rounding_up_spec(a: nat, b: nat, d: nat) -> Option<nat> {
    if d != 0 && ceil_div(a * b, d) < two_pow_256() {
        Some(ceil_div(a * b, d))
    } else {
        None
    }
}

/// Calls `uniswap_v3_math::full_math::mul_div`.
///
/// Trusted: the call returns `floor(a * b / denominator)`, computed without
/// overflow of the product, and fails exactly when the denominator is zero
/// or the quotient does not fit 256 bits.
#[verifier::external_body]
fn mul_div_outside(a: U256, b: U256, denominator: U256) -> (r: Result<U256, UniswapV3MathError>)
    ensures
        r is Ok <==> mul_div_spec(a@, b@, denominator@) is Some,
        r matches Ok(q) ==> Some(q@) == mul_div_spec(a@, b@, denominator@),
{
    match uniswap_v3_math::full_math::mul_div(
        alloy::primitives::U256::from_limbs(a.into_limbs()),
        alloy::primitives::U256::from_limbs(b.into_limbs()),
        alloy::primitives::U256::from_limbs(denominator.into_limbs()),
    ) {
        Ok(q) => Ok(U256::from_limbs(q.into_limbs())),
        Err(e) => Err(e),
    }
}

/// Calls `uniswap_v3_math::full_math::mul_div_rounding_up`.
///
/// Trusted: the call returns `ceil(a * b / denominator)`, computed without
/// overflow of the product, and fails exactly when the denominator is zero
/// or the rounded quotient does not fit 256 bits.
#[verifier::external_body]
fn mul_div_rounding_up_outside(a: U256, b: U256, denominator: U256) -> (r: Result<
    U256,
    UniswapV3MathError,
>)
    ensures
        r is Ok <==> mul_div_rounding_up_spec(a@, b@, denominator@) is Some,
        r matches Ok(q) ==> Some(q@) == mul_div_rounding_up_spec(a@, b@, denominator@),
{
    match uniswap_v3_math::full_math::mul_div_rounding_up(
        alloy::primitives::U256::from_limbs(a.into_limbs()),
        alloy::primitives::U256::from_limbs(b.into_limbs()),
        alloy::primitives::U256::from_limbs(denominator.into_limbs()),
    ) {
        Ok(q) => Ok(U256::from_limbs(q.into_limbs())),
        Err(e) => Err(e),
    }
}

/// `floor(a * b / denominator)` with full precision.
pub fn mul_div(a: U256, b: U256, denominator: U256) -> (r: Result<U256, ArithmeticError>)
    ensures
        r is Ok <==> mul_div_spec(a@, b@, denominator@) is Some,
        r matches Ok(q) ==> Some(q@) == mul_div_spec(a@, b@, denominator@),
        r is Err ==> r == Err::<U256, ArithmeticError>(ArithmeticError::MulDivError),
{
    match mul_div_outside(a, b, denominator) {
        Ok(q) => Ok(q),
        Err(_) => Err(ArithmeticError::MulDivError),
    }
}

/// `ceil(a * b / denominator)` with full precision.
pub fn mul_div_rounding_up(a: U256, b: U256, denominator: U256) -> (r: Result<
    U256,
    ArithmeticError,
>)
    ensures
        r is Ok <==> mul_div_rounding_up_spec(a@, b@, denominator@) is Some,
        r matches Ok(q) ==> Some(q@) == mul_div_rounding_up_spec(a@, b@, denominator@),
        r is Err ==> r == Err::<U256, ArithmeticError>(ArithmeticError::MulDivError),
{
    match mul_div_rounding_up_outside(a, b, denominator) {
        Ok(q) => Ok(q),
        Err(_) => Err(ArithmeticError::MulDivError),
    }
}

impl U256 {
    /// The product, when it fits 256 bits.
    pub fn checked_mul(self, rhs: U256) -> (r: Option<U256>)
        ensures
            r is Some <==> self@ * rhs@ < two_pow_256(),
            r matches Some(p) ==> p@ == self@ * rhs@,
    {
        match mul_div(self, rhs, U256::one()) {
            Ok(p) => Some(p),
            Err(_) => None,
        }
    }

    /// The quotient and the remainder, when the divisor is not zero.
    pub fn checked_div_rem(self, rhs: U256) -> (r: Option<(U256, U256)>)
        ensures
            r is Some <==> rhs@ != 0,
            r matches Some(qr) ==> qr.0@ == self@ / rhs@ && qr.1@ == self@ % rhs@,
    {
        proof {
            assert(self@ * 1 == self@);
            crate::primitives::u256::lemma_halves(self);
            if rhs@ != 0 {
                vstd::arithmetic::div_mod::lemma_div_is_ordered_by_denominator(
                    self@ as int,
                    1,
                    rhs@ as int,
                );
                vstd::arithmetic::div_mod::lemma_fundamental_div_mod(self@ as int, rhs@ as int);
            }
        }
        match mul_div(self, U256::one(), rhs) {
            Ok(q) => {
                proof {
                    assert(q@ * rhs@ == rhs@ * q@) by (nonlinear_arith);
                    assert(q@ * rhs@ <= self@);
                    assert((q@ * rhs@) / 1 == q@ * rhs@);
                }
                match mul_div(q, rhs, U256::one()) {
                    Ok(m) => match self.checked_sub(m) {
                        Some(rem) => Some((q, rem)),
                        None => None,
                    },
                    Err(_) => None,
                }
            },
            Err(_) => None,
        }
    }

    /// The value divided by 2^n, rounded down.
    pub fn shr(self, n: u32) -> (r: U256)
        ensures
            r@ == self@ / pow2(n as nat),
    {
        proof {
            crate::primitives::u256::lemma_halves(self);
            lemma_two_pows();
            vstd::arithmetic::power2::lemma_pow2_pos(n as nat);
        }
        if n >= 256 {
            proof {
                if n > 256 {
                    vstd::arithmetic::power2::lemma_pow2_strictly_increases(256, n as nat);
                }
                vstd::arithmetic::div_mod::lemma_basic_div(self@ as int, pow2(n as nat) as int);
            }
            U256::zero()
        } else {
            match self.checked_div_rem(U256::pow2(n)) {
                Some(qr) => qr.0,
                None => U256::zero(),
            }
        }
    }

    /// The value modulo 2^n.
    pub fn low_bits(self, n: u32) -> (r: U256)
        ensures
            r@ == self@ % pow2(n as nat),
    {
        proof {
            crate::primitives::u256::lemma_halves(self);
            lemma_two_pows();
            vstd::arithmetic::power2::lemma_pow2_pos(n as nat);
        }
        if n >= 256 {
            proof {
                if n > 256 {
                    vstd::arithmetic::power2::lemma_pow2_strictly_increases(256, n as nat);
                }
                vstd::arithmetic::div_mod::lemma_small_mod(self@, pow2(n as nat));
            }
            self
        } else {
            match self.checked_div_rem(U256::pow2(n)) {
                Some(qr) => qr.1,
                None => self,
            }
        }
    }

    /// The value times 2^n, when it fits 256 bits.
    pub fn checked_shl(self, n: u32) -> (r: Option<U256>)
        ensures
            r is Some <==> self@ * pow2(n as nat) < two_pow_256(),
            r matches Some(p) ==> p@ == self@ * pow2(n as nat),
    {
        if n >= 256 {
            proof {
                crate::primitives::u256::lemma_halves(self);
                lemma_two_pows();
                if n > 256 {
                    vstd::arithmetic::power2::lemma_pow2_strictly_increases(256, n as nat);
                }
                assert(self@ != 0 ==> self@ * pow2(n as nat) >= two_pow_256()) by (nonlinear_arith)
                    requires
                        pow2(n as nat) >= two_pow_256(),
                ;
                assert(self@ == 0 ==> self@ * pow2(n as nat) == 0) by (nonlinear_arith);
            }
            if self.is_zero() {
                Some(self)
            } else {
                None
            }
        } else {
            self.checked_mul(U256::pow2(n))
        }
    }
}

} // verus!
