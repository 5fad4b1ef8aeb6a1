//! Minimal pool states for quotes that are thrown away.

pub mod shallow_v2;
pub mod shallow_v3;

use vstd::prelude::*;

use crate::amm::shallow_amm::shallow_v2::ShallowV2;
use crate::amm::shallow_amm::shallow_v3::{shallow_v3_quote_spec, ShallowV3};
use crate::amm::AMM;
use crate::errors::SwapSimulationError;
use crate::primitives::{Address, U256};

verus! {

/// The quote state of a pool of either kind.
#[derive(Clone, Copy, Debug)]
pub enum ShallowAMM {
    V2(ShallowV2),
    V3(ShallowV3),
}

impl ShallowAMM {
    /// The quote state of `amm` as it stands.
    pub fn new(amm: &AMM) -> (r: ShallowAMM)
        ensures
            match *amm {
                AMM::UniswapV2Pool(pool) => r == ShallowAMM::V2(
                    ShallowV2 { reserve_0: pool.reserve_0, reserve_1: pool.reserve_1 },
                ),
                AMM::UniswapV3Pool(pool) => r == ShallowAMM::V3(
                    ShallowV3 {
                        liquidity: pool.liquidity,
                        sqrt_price: pool.slot0.sqrt_price_x96,
                        tick: pool.slot0.tick,
                    },
                ),
            },
    {
        match amm {
            AMM::UniswapV2Pool(pool) => ShallowAMM::V2(ShallowV2::new(pool)),
            AMM::UniswapV3Pool(pool) => ShallowAMM::V3(ShallowV3::new(pool)),
        }
    }

    /// Quotes a swap of `amount_in` of `token_in` from this state against
    /// the pool `base`, and returns the amount out with the state after the
    /// swap. A state and a pool of different kinds do not go together.
    pub fn simulate_swap(&self, token_in: Address, amount_in: U256, base: &AMM) -> (r: Result<
        (U256, ShallowAMM),
        SwapSimulationError,
    >)
        requires
            self matches ShallowAMM::V3(state) ==> state.wf(),
            base matches AMM::UniswapV3Pool(pool) ==> pool.wf(),
        ensures
            match (*self, *base) {
                (ShallowAMM::V2(state), AMM::UniswapV2Pool(pool)) => match state.quote_spec(
                    token_in,
                    amount_in,
                    pool,
                ) {
                    Ok(quote) => r == Ok::<(U256, ShallowAMM), SwapSimulationError>(
                        (quote.0, ShallowAMM::V2(quote.1)),
                    ),
                    Err(e) => r == Err::<(U256, ShallowAMM), SwapSimulationError>(e),
                },
                (ShallowAMM::V3(state), AMM::UniswapV3Pool(pool)) => match shallow_v3_quote_spec(
                    state,
                    token_in,
                    amount_in,
                    pool@,
                ) {
                    Ok(quote) => r == Ok::<(U256, ShallowAMM), SwapSimulationError>(
                        (quote.0, ShallowAMM::V3(quote.1)),
                    ),
                    Err(e) => r == Err::<(U256, ShallowAMM), SwapSimulationError>(e),
                },
                _ => r == Err::<(U256, ShallowAMM), SwapSimulationError>(
                    SwapSimulationError::MixedTypes,
                ),
            },
    {
        match (self, base) {
            (ShallowAMM::V2(state), AMM::UniswapV2Pool(pool)) => {
                match state.simulate_swap(token_in, amount_in, pool) {
                    Ok(quote) => Ok((quote.0, ShallowAMM::V2(quote.1))),
                    Err(e) => Err(e),
                }
            },
            (ShallowAMM::V3(state), AMM::UniswapV3Pool(pool)) => {
                match state.simulate_swap(token_in, amount_in, pool) {
                    Ok(quote) => Ok((quote.0, ShallowAMM::V3(quote.1))),
                    Err(e) => Err(e),
                }
            },
            _ => Err(SwapSimulationError::MixedTypes),
        }
    }
}

} // verus!
