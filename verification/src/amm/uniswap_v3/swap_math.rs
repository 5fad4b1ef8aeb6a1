//! One step of a swap within a range of constant liquidity.

use uniswap_v3_math::error::UniswapV3MathError;
use vstd::prelude::*;

use crate::errors::{AMMError, ArithmeticError};
use crate::primitives::u256::{lemma_from_nat_view, u256_from_nat};
use crate::primitives::{I256, U256};

verus! {

/// The highest fee, in hundredths of a basis point, that a step accepts.
pub const MAX_FEE_PIPS: u32 = 1_000_000;

/// What one swap step yields.
#[derive(Clone, Copy, Debug, PartialEq, Eq, Structural)]
pub struct SwapStep {
    /// The price after the step.
    pub sqrt_price_next_x96: U256,
    /// The amount of the input token that the step takes, fee excluded.
    pub amount_in: U256,
    /// The amount of the output token that the step gives.
    pub amount_out: U256,
    /// The part of the input that is taken as fee.
    pub fee_amount: U256,
}

/// The result of `uniswap_v3_math::swap_math::compute_swap_step` on the
/// current price, the target price, the liquidity, the remaining amount and
/// the fee: the next price, the amount in, the amount out and the fee
/// amount, or `None` where it fails.
pub uninterp spec fn compute_swap_step_spec(
    sqrt_ratio_current: nat,
    sqrt_ratio_target: nat,
    liquidity: nat,
    amount_remaining: int,
    fee_pips: nat,
) -> Option<(nat, nat, nat, nat)>;

/// The named step result as a record of 256-bit values.
pub open spec fn swap_step_spec(
    sqrt_ratio_current: U256,
    sqrt_ratio_target: U256,
    liquidity: u128,
    amount_remaining: I256,
    fee_pips: u32,
) -> Option<(nat, nat, nat, nat)> {
    compute_swap_step_spec(
        sqrt_ratio_current@,
        sqrt_ratio_target@,
        liquidity as nat,
        amount_remaining@,
        fee_pips as nat,
    )
}

/// The step that the pool takes: the named step result as a record, and a
/// failure where the fee exceeds one million, where the remaining amount is
/// the lowest signed value, or where the named result is `None`.
pub open spec fn checked_swap_step_spec(
    sqrt_ratio_current: U256,
    sqrt_ratio_target: U256,
    liquidity: u128,
    amount_remaining: I256,
    fee_pips: u32,
) -> Result<SwapStep, AMMError> {
    if fee_pips > MAX_FEE_PIPS || amount_remaining@ == I256::min_int() {
        Err(AMMError::ArithmeticError(ArithmeticError::SwapStepError))
    } else {
        match swap_step_spec(
            sqrt_ratio_current,
            sqrt_ratio_target,
            liquidity,
            amount_remaining,
            fee_pips,
        ) {
            Some(values) => Ok(
                SwapStep {
                    sqrt_price_next_x96: u256_from_nat(values.0),
                    amount_in: u256_from_nat(values.1),
                    amount_out: u256_from_nat(values.2),
                    fee_amount: u256_from_nat(values.3),
                },
            ),
            None => Err(AMMError::ArithmeticError(ArithmeticError::SwapStepError)),
        }
    }
}

/// Calls `uniswap_v3_math::swap_math::compute_swap_step`.
///
/// Trusted: the result is a function of the arguments alone. The fee must
/// not exceed one million and the remaining amount must not be the lowest
/// signed value, where the call would overflow.
#[verifier::external_body]
fn compute_swap_step_outside(
    sqrt_ratio_current: U256,
    sqrt_ratio_target: U256,
    liquidity: u128,
    amount_remaining: I256,
    fee_pips: u32,
) -> (r: Result<(U256, U256, U256, U256), UniswapV3MathError>)
    requires
        fee_pips <= MAX_FEE_PIPS,
        amount_remaining@ > I256::min_int(),
    ensures
        match r {
            Ok(v) => compute_swap_step_spec(
                sqrt_ratio_current@,
                sqrt_ratio_target@,
                liquidity as nat,
                amount_remaining@,
                fee_pips as nat,
            ) == Some((v.0@, v.1@, v.2@, v.3@)),
            Err(_) => compute_swap_step_spec(
                sqrt_ratio_current@,
                sqrt_ratio_target@,
                liquidity as nat,
                amount_remaining@,
                fee_pips as nat,
            ) is None,
        },
{
    let step = uniswap_v3_math::swap_math::compute_swap_step(
        alloy::primitives::U256::from_limbs(sqrt_ratio_current.into_limbs()),
        alloy::primitives::U256::from_limbs(sqrt_ratio_target.into_limbs()),
        liquidity,
        alloy::primitives::I256::from_limbs(amount_remaining.raw.into_limbs()),
        fee_pips,
    )?;
    Ok(
        (
            U256::from_limbs(step.0.into_limbs()),
            U256::from_limbs(step.1.into_limbs()),
            U256::from_limbs(step.2.into_limbs()),
            U256::from_limbs(step.3.into_limbs()),
        ),
    )
}

/// Computes one swap step from the current price towards the target price.
///
/// Fails where the fee exceeds one million, where the remaining amount is
/// the lowest signed value, and where the step itself fails.
pub fn compute_swap_step(
    sqrt_ratio_current: U256,
    sqrt_ratio_target: U256,
    liquidity: u128,
    amount_remaining: I256,
    fee_pips: u32,
) -> (r: Result<SwapStep, AMMError>)
    ensures
        r == checked_swap_step_spec(
            sqrt_ratio_current,
            sqrt_ratio_target,
            liquidity,
            amount_remaining,
            fee_pips,
        ),
{
    broadcast use lemma_from_nat_view;

    proof {
        amount_remaining.lemma_range();
    }
    if fee_pips > MAX_FEE_PIPS {
        return Err(AMMError::ArithmeticError(ArithmeticError::SwapStepError));
    }
    match amount_remaining.checked_neg() {
        None => {
            return Err(AMMError::ArithmeticError(ArithmeticError::SwapStepError));
        },
        Some(_) => {},
    }
    match compute_swap_step_outside(
        sqrt_ratio_current,
        sqrt_ratio_target,
        liquidity,
        amount_remaining,
        fee_pips,
    ) {
        Ok(v) => Ok(
            SwapStep {
                sqrt_price_next_x96: v.0,
                amount_in: v.1,
                amount_out: v.2,
                fee_amount: v.3,
            },
        ),
        Err(_) => Err(AMMError::ArithmeticError(ArithmeticError::SwapStepError)),
    }
}

} // verus!
