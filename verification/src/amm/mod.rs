//! Automated market makers.

pub mod shallow_amm;
pub mod storage;
pub mod uniswap_v2;
pub mod uniswap_v3;

use vstd::prelude::*;

use crate::amm::uniswap_v2::UniswapV2Pool;
use crate::amm::uniswap_v3::UniswapV3Pool;
use crate::primitives::Address;

verus! {

/// A pool of one of the kinds that the library knows.
#[derive(Clone, Debug)]
pub enum AMM {
    UniswapV2Pool(UniswapV2Pool),
    UniswapV3Pool(UniswapV3Pool),
}

impl AMM {
    /// Whether two pools are of the same kind.
    pub open spec fn same_kind(&self, other: &AMM) -> bool {
        (self is UniswapV2Pool) == (other is UniswapV2Pool)
    }

    /// Whether both token addresses of the pool are known.
    pub open spec fn is_populated(&self) -> bool {
        match self {
            AMM::UniswapV2Pool(pool) => pool.token_a != (Address { high: 0, low: 0 })
                && pool.token_b != (Address { high: 0, low: 0 }),
            AMM::UniswapV3Pool(pool) => pool.token_a != (Address { high: 0, low: 0 })
                && pool.token_b != (Address { high: 0, low: 0 }),
        }
    }

    /// Whether both token addresses of the pool are known.
    pub fn data_is_populated(&self) -> (r: bool)
        ensures
            r == self.is_populated(),
    {
        match self {
            AMM::UniswapV2Pool(pool) => !pool.token_a.is_zero() && !pool.token_b.is_zero(),
            AMM::UniswapV3Pool(pool) => !pool.token_a.is_zero() && !pool.token_b.is_zero(),
        }
    }
}

} // verus!
