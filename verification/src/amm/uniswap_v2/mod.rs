//! The constant-product pool, as far as quotes need it.

use vstd::prelude::*;

use crate::errors::SwapSimulationError;
use crate::primitives::full_math::mul_div;
use crate::primitives::u256::{lemma_halves, two_pow_256};
use crate::primitives::{Address, U256};

verus! {

/// A constant-product pool: its tokens, its reserves and its fee.
#[derive(Clone, Copy, Debug, PartialEq, Eq, Structural)]
pub struct UniswapV2Pool {
    pub address: Address,
    pub token_a: Address,
    pub token_a_decimals: u8,
    pub token_b: Address,
    pub token_b_decimals: u8,
    pub reserve_0: u128,
    pub reserve_1: u128,
    /// The fee in hundredths of a percent of a percent times ten: 300 is 0.3%.
    pub fee: u32,
}

/// The part per thousand of an input that is left after the fee.
pub open spec fn fee_multiplier_spec(fee: u32) -> nat {
    ((10000 - (fee / 10)) / 10) as nat
}

/// The output of the constant-product formula on an input after the fee:
/// `in * m * reserve_out / (reserve_in * 1000 + in * m)` with `m` the part
/// per thousand that the fee leaves; zero where the input or a reserve is
/// zero.
pub open spec fn amount_out_spec(fee: u32, amount_in: nat, reserve_in: nat, reserve_out: nat) -> nat {
    if amount_in == 0 || reserve_in == 0 || reserve_out == 0 {
        0
    } else {
        let amount_in_with_fee = amount_in * fee_multiplier_spec(fee);
        (amount_in_with_fee * reserve_out) / (reserve_in * 1000 + amount_in_with_fee)
    }
}

impl UniswapV2Pool {
    /// The amount of the output token that `amount_in` of the input token
    /// buys at the given reserves; see [`amount_out_spec`].
    ///
    /// Fails where the fee exceeds 100% or an intermediate value does not
    /// fit 256 bits.
    pub fn get_amount_out(&self, amount_in: U256, reserve_in: U256, reserve_out: U256) -> (r:
        Result<U256, SwapSimulationError>)
        ensures
            r matches Ok(out) ==> out@ == amount_out_spec(
                self.fee,
                amount_in@,
                reserve_in@,
                reserve_out@,
            ),
            r is Err ==> r == Err::<U256, SwapSimulationError>(
                SwapSimulationError::ReserveOverflow,
            ),
            r is Ok <==> amount_in@ == 0 || reserve_in@ == 0 || reserve_out@ == 0 || (self.fee
                <= 100_000 && reserve_in@ * 1000 + amount_in@ * fee_multiplier_spec(self.fee)
                < two_pow_256()),
    {
        if amount_in.is_zero() || reserve_in.is_zero() || reserve_out.is_zero() {
            return Ok(U256::zero());
        }
        if self.fee > 100_000 {
            return Err(SwapSimulationError::ReserveOverflow);
        }
        let multiplier: u32 = (10000 - (self.fee / 10)) / 10;
        proof {
            lemma_halves(amount_in);
            lemma_halves(reserve_in);
            lemma_halves(reserve_out);
        }
        let amount_in_with_fee: U256 = match amount_in.checked_mul(
            U256::from_u64(multiplier as u64),
        ) {
            Some(v) => v,
            None => {
                return Err(SwapSimulationError::ReserveOverflow);
            },
        };
        let scaled_reserve: U256 = match reserve_in.checked_mul(U256::from_u64(1000)) {
            Some(v) => v,
            None => {
                return Err(SwapSimulationError::ReserveOverflow);
            },
        };
        let denominator: U256 = match scaled_reserve.checked_add(amount_in_with_fee) {
            Some(v) => v,
            None => {
                return Err(SwapSimulationError::ReserveOverflow);
            },
        };
        proof {
            let n = amount_in_with_fee@ * reserve_out@;
            let d = denominator@;
            assert(n <= d * reserve_out@) by (nonlinear_arith)
                requires
                    n == amount_in_with_fee@ * reserve_out@,
                    amount_in_with_fee@ <= d,
            ;
            vstd::arithmetic::div_mod::lemma_div_is_ordered(
                n as int,
                (d * reserve_out@) as int,
                d as int,
            );
            vstd::arithmetic::div_mod::lemma_div_multiples_vanish(reserve_out@ as int, d as int);
        }
        match mul_div(amount_in_with_fee, reserve_out, denominator) {
            Ok(out) => Ok(out),
            Err(_) => {
                assert(false);
                Err(SwapSimulationError::ReserveOverflow)
            },
        }
    }
}

} // verus!
