//! The quote state of a concentrated-liquidity pool: liquidity, price and tick.

use vstd::prelude::*;

use crate::amm::uniswap_v3::pool::{PoolView, UniswapV3Pool};
use crate::amm::uniswap_v3::swap::{
    run_swap_loop, simulation_limit, simulation_limit_spec, swap_loop_spec,
};
use crate::amm::uniswap_v3::swap_step::{CrossedTick, SwapCache, SwapState};
use crate::amm::uniswap_v3::tick_math::{MAX_TICK, MIN_TICK};
use crate::errors::{AMMError, LogicError, SwapSimulationError};
use crate::primitives::u256::u256_from_nat;
use crate::primitives::wrapping::{sub_u256, wrapping_sub_u256};
use crate::primitives::{Address, I256, U256};

verus! {

/// What a quote needs of a concentrated-liquidity pool's state.
#[derive(Clone, Copy, Debug, PartialEq, Eq, Structural)]
pub struct ShallowV3 {
    pub liquidity: u128,
    pub sqrt_price: U256,
    pub tick: i32,
}

/// What a quote against `pool` reads and never changes: the swap runs to
/// the end of the price range and keeps no books of fees.
pub open spec fn quote_cache_spec(pool: PoolView, zero_for_one: bool, amount_in: U256) -> SwapCache {
    SwapCache {
        zero_for_one,
        exact_input: (I256 { raw: amount_in })@ > 0,
        sqrt_price_limit_x96: u256_from_nat(simulation_limit_spec(zero_for_one)),
        fee: pool.fee,
        tick_spacing: pool.tick_spacing,
        fee_protocol: 0,
        liquidity_start: pool.liquidity,
        block_timestamp: 0,
        tick_cumulative: 0,
        seconds_per_liquidity_cumulative_x128: U256 { l0: 0, l1: 0, l2: 0, l3: 0 },
        fee_growth_global_0_x128: U256 { l0: 0, l1: 0, l2: 0, l3: 0 },
        fee_growth_global_1_x128: U256 { l0: 0, l1: 0, l2: 0, l3: 0 },
        amount_in_from_log: None,
        track_fees: false,
    }
}

/// The state in which a quote from `state` starts.
pub open spec fn quote_start_spec(state: ShallowV3, amount_in: U256) -> SwapState {
    SwapState {
        amount_specified_remaining: I256 { raw: amount_in },
        amount_calculated: I256 { raw: U256 { l0: 0, l1: 0, l2: 0, l3: 0 } },
        sqrt_price_x_96: state.sqrt_price,
        tick: state.tick,
        liquidity: state.liquidity,
        fee_growth_global_x128: U256 { l0: 0, l1: 0, l2: 0, l3: 0 },
        protocol_fee: 0,
    }
}

/// How a failure of the swap loop shows in a quote.
pub open spec fn quote_error_spec(e: AMMError) -> SwapSimulationError {
    if e == AMMError::LogicError(LogicError::LiquiditySub) {
        SwapSimulationError::LiquidityUnderflow
    } else {
        SwapSimulationError::Rejected(e)
    }
}

/// The amount out and the state after a quote of `amount_in` of `token_in`
/// from `state` against `pool`: the end of the pool's swap loop, run from
/// the state's liquidity, price and tick over the pool's ticks. A zero
/// amount yields zero and the state as it is.
pub open spec fn shallow_v3_quote_spec(
    state: ShallowV3,
    token_in: Address,
    amount_in: U256,
    pool: PoolView,
) -> Result<(U256, ShallowV3), SwapSimulationError> {
    if amount_in@ == 0 {
        Ok((U256 { l0: 0, l1: 0, l2: 0, l3: 0 }, state))
    } else {
        let zero_for_one = token_in == pool.token_a;
        match swap_loop_spec(
            pool.tick_bitmap,
            pool.ticks,
            quote_cache_spec(pool, zero_for_one, amount_in),
            quote_start_spec(state, amount_in),
            Seq::<CrossedTick>::empty(),
        ) {
            Err(e) => Err(quote_error_spec(e)),
            Ok(end) => Ok(
                (
                    sub_u256(U256 { l0: 0, l1: 0, l2: 0, l3: 0 }, end.0.amount_calculated.raw),
                    ShallowV3 {
                        liquidity: end.0.liquidity,
                        sqrt_price: end.0.sqrt_price_x_96,
                        tick: end.0.tick,
                    },
                ),
            ),
        }
    }
}

impl ShallowV3 {
    /// The invariant of a quote state: a tick between `MIN_TICK` and `MAX_TICK`.
    pub open spec fn wf(&self) -> bool {
        MIN_TICK <= self.tick <= MAX_TICK
    }

    /// The quote state of `base` as it stands.
    pub fn new(base: &UniswapV3Pool) -> (r: ShallowV3)
        ensures
            r == (ShallowV3 {
                liquidity: base.liquidity,
                sqrt_price: base.slot0.sqrt_price_x96,
                tick: base.slot0.tick,
            }),
            base.wf() ==> r.wf(),
    {
        ShallowV3 {
            liquidity: base.liquidity,
            sqrt_price: base.slot0.sqrt_price_x96,
            tick: base.slot0.tick,
        }
    }

    /// Quotes a swap of `amount_in` of `token_in` from this state against
    /// the ticks of `base`, and returns the amount out with the state after
    /// the swap; see [`shallow_v3_quote_spec`]. Neither this state nor the
    /// pool is changed.
    pub fn simulate_swap(&self, token_in: Address, amount_in: U256, base: &UniswapV3Pool) -> (r:
        Result<(U256, ShallowV3), SwapSimulationError>)
        requires
            self.wf(),
            base.wf(),
        ensures
            r == shallow_v3_quote_spec(*self, token_in, amount_in, base@),
            r matches Ok(quote) ==> quote.1.wf(),
    {
        if amount_in.is_zero() {
            return Ok((U256 { l0: 0, l1: 0, l2: 0, l3: 0 }, *self));
        }
        let zero_for_one: bool = token_in == base.token_a;
        let amount_specified: I256 = I256::from_raw(amount_in);
        let cache = SwapCache {
            zero_for_one,
            exact_input: amount_specified.is_positive(),
            sqrt_price_limit_x96: simulation_limit(zero_for_one),
            fee: base.fee,
            tick_spacing: base.tick_spacing,
            fee_protocol: 0,
            liquidity_start: base.liquidity,
            block_timestamp: 0,
            tick_cumulative: 0,
            seconds_per_liquidity_cumulative_x128: U256 { l0: 0, l1: 0, l2: 0, l3: 0 },
            fee_growth_global_0_x128: U256 { l0: 0, l1: 0, l2: 0, l3: 0 },
            fee_growth_global_1_x128: U256 { l0: 0, l1: 0, l2: 0, l3: 0 },
            amount_in_from_log: None,
            track_fees: false,
        };
        let start = SwapState {
            amount_specified_remaining: amount_specified,
            amount_calculated: I256 { raw: U256 { l0: 0, l1: 0, l2: 0, l3: 0 } },
            sqrt_price_x_96: self.sqrt_price,
            tick: self.tick,
            liquidity: self.liquidity,
            fee_growth_global_x128: U256 { l0: 0, l1: 0, l2: 0, l3: 0 },
            protocol_fee: 0,
        };
        match run_swap_loop(&base.tick_bitmap, &base.ticks, &cache, start) {
            Err(e) => {
                if e == AMMError::LogicError(LogicError::LiquiditySub) {
                    Err(SwapSimulationError::LiquidityUnderflow)
                } else {
                    Err(SwapSimulationError::Rejected(e))
                }
            },
            Ok(end) => Ok(
                (
                    wrapping_sub_u256(
                        U256 { l0: 0, l1: 0, l2: 0, l3: 0 },
                        end.0.amount_calculated.raw,
                    ),
                    ShallowV3 {
                        liquidity: end.0.liquidity,
                        sqrt_price: end.0.sqrt_price_x_96,
                        tick: end.0.tick,
                    },
                ),
            ),
        }
    }
}

/// A quote of a zero amount yields zero and the state as it is, however
/// often it is repeated.
pub proof fn lemma_zero_quote(state: ShallowV3, token_in: Address, amount_in: U256, pool: PoolView)
    requires
        amount_in@ == 0,
    ensures
        shallow_v3_quote_spec(state, token_in, amount_in, pool) == Ok::<
            (U256, ShallowV3),
            SwapSimulationError,
        >((U256 { l0: 0, l1: 0, l2: 0, l3: 0 }, state)),
{
}

} // verus!
