//! The pool aggregate: its fields, its abstract state and its plain accessors.

use vstd::prelude::*;

use crate::amm::uniswap_v3::oracle::{Observation, Observations};
use crate::amm::uniswap_v3::position::{PositionEntry, Positions};
use crate::amm::uniswap_v3::tick::{Tick, Ticks};
use crate::amm::uniswap_v3::tick_bitmap::{TickBitmap, MAX_TICK_SPACING};
use crate::amm::uniswap_v3::tick_math::{MAX_TICK, MIN_TICK};
use crate::primitives::{Address, U256};

verus! {

/// The pool's most often read values, which share one storage slot on chain.
#[derive(Clone, Copy, Debug, PartialEq, Eq, Structural)]
pub struct Slot0 {
    pub sqrt_price_x96: U256,
    pub tick: i32,
    pub observation_index: u16,
    pub observation_cardinality: u16,
    pub observation_cardinality_next: u16,
    pub fee_protocol: u8,
    pub unlocked: bool,
}

impl Slot0 {
    /// The slot of a pool that was not initialized yet.
    pub open spec fn empty() -> Slot0 {
        Slot0 {
            sqrt_price_x96: U256 { l0: 0, l1: 0, l2: 0, l3: 0 },
            tick: 0,
            observation_index: 0,
            observation_cardinality: 0,
            observation_cardinality_next: 0,
            fee_protocol: 0,
            unlocked: false,
        }
    }
}

/// The fees that the protocol has accrued and not yet withdrawn.
#[derive(Clone, Copy, Debug, PartialEq, Eq, Structural)]
pub struct ProtocolFees {
    pub token0: u128,
    pub token1: u128,
}

/// The liquidity figures of one tick.
#[derive(Clone, Copy, Debug, PartialEq, Eq, Structural)]
pub struct Info {
    pub liquidity_gross: u128,
    pub liquidity_net: i128,
    pub initialized: bool,
}

impl Info {
    /// Builds the liquidity figures of one tick.
    pub fn new(liquidity_gross: u128, liquidity_net: i128, initialized: bool) -> (r: Info)
        ensures
            r == (Info { liquidity_gross, liquidity_net, initialized }),
    {
        Info { liquidity_gross, liquidity_net, initialized }
    }
}

/// A liquidity amount did not fit 128 bits.
#[derive(Clone, Copy, Debug, PartialEq, Eq, Structural)]
pub struct OverflowError;

impl OverflowError {
    /// The message of this error.
    pub fn message(&self) -> (s: &'static str)
        ensures
            s@ == "Overflow"@,
    {
        "Overflow"
    }
}

/// The liquidity change of one position that a mint or a burn asks for.
#[derive(Clone, Copy, Debug, PartialEq, Eq, Structural)]
pub struct ModifyPositionParams {
    pub owner: Address,
    pub tick_lower: i32,
    pub tick_upper: i32,
    pub liquidity_delta: i128,
}

/// Where an event stands in the chain's order of events.
#[derive(Clone, Copy, Debug, PartialEq, Eq, Structural)]
pub struct LogPosition {
    pub block_number: u64,
    pub log_index: u64,
}

impl LogPosition {
    /// Whether this position comes strictly after `other`.
    pub open spec fn is_after(self, other: LogPosition) -> bool {
        self.block_number > other.block_number || (self.block_number == other.block_number
            && self.log_index > other.log_index)
    }

    /// Whether this position comes strictly after `other`.
    pub fn comes_after(&self, other: &LogPosition) -> (r: bool)
        ensures
            r == self.is_after(*other),
    {
        self.block_number > other.block_number || (self.block_number == other.block_number
            && self.log_index > other.log_index)
    }
}

/// A concentrated-liquidity pool.
#[derive(Clone, Debug)]
pub struct UniswapV3Pool {
    pub address: Address,
    pub token_a: Address,
    pub token_a_decimals: u8,
    pub token_b: Address,
    pub token_b_decimals: u8,
    pub slot0: Slot0,
    pub liquidity: u128,
    pub fee: u32,
    pub tick_spacing: i32,
    pub tick_bitmap: TickBitmap,
    pub ticks: Ticks,
    pub positions: Positions,
    pub fee_growth_global_0_x128: U256,
    pub fee_growth_global_1_x128: U256,
    pub max_liquidity_per_tick: u128,
    pub protocol_fees: ProtocolFees,
    pub observations: Observations,
    /// The position of the last event that was replayed, if any.
    pub last_log: Option<LogPosition>,
}

/// The abstract state of a pool: its scalar fields and the contents of its
/// collections.
pub struct PoolView {
    pub address: Address,
    pub token_a: Address,
    pub token_a_decimals: u8,
    pub token_b: Address,
    pub token_b_decimals: u8,
    pub slot0: Slot0,
    pub liquidity: u128,
    pub fee: u32,
    pub tick_spacing: i32,
    pub tick_bitmap: Map<i16, U256>,
    pub ticks: Map<i32, Tick>,
    pub positions: Seq<PositionEntry>,
    pub fee_growth_global_0_x128: U256,
    pub fee_growth_global_1_x128: U256,
    pub max_liquidity_per_tick: u128,
    pub protocol_fees: ProtocolFees,
    pub observations: Seq<Observation>,
    pub last_log: Option<LogPosition>,
}

impl PoolView {
    /// The invariant of the data model: a positive tick spacing within the
    /// protocol's bound, and a current tick between `MIN_TICK` and `MAX_TICK`.
    pub open spec fn wf(self) -> bool {
        &&& 0 < self.tick_spacing <= MAX_TICK_SPACING
        &&& MIN_TICK <= self.slot0.tick <= MAX_TICK
    }
}

/// The most liquidity that one tick may carry, so that the gross liquidity
/// of all usable ticks together fits 128 bits.
pub open spec fn max_liquidity_per_tick_spec(tick_spacing: i32) -> u128 {
    (u128::MAX / ((2 * (887272int / (tick_spacing as int)) + 1) as u128)) as u128
}

impl View for UniswapV3Pool {
    type V = PoolView;

    open spec fn view(&self) -> PoolView {
        PoolView {
            address: self.address,
            token_a: self.token_a,
            token_a_decimals: self.token_a_decimals,
            token_b: self.token_b,
            token_b_decimals: self.token_b_decimals,
            slot0: self.slot0,
            liquidity: self.liquidity,
            fee: self.fee,
            tick_spacing: self.tick_spacing,
            tick_bitmap: self.tick_bitmap@,
            ticks: self.ticks@,
            positions: self.positions@,
            fee_growth_global_0_x128: self.fee_growth_global_0_x128,
            fee_growth_global_1_x128: self.fee_growth_global_1_x128,
            max_liquidity_per_tick: self.max_liquidity_per_tick,
            protocol_fees: self.protocol_fees,
            observations: self.observations@,
            last_log: self.last_log,
        }
    }
}

impl UniswapV3Pool {
    /// The invariant of the data model; see [`PoolView::wf`].
    pub open spec fn wf(&self) -> bool {
        self@.wf()
    }

    /// A pool with the given static data, price and liquidity, and with no
    /// tick, position or observation yet.
    pub fn new(
        address: Address,
        token_a: Address,
        token_a_decimals: u8,
        token_b: Address,
        token_b_decimals: u8,
        fee: u32,
        liquidity: u128,
        sqrt_price_x96: U256,
        tick: i32,
        tick_spacing: i32,
    ) -> (r: UniswapV3Pool)
        requires
            0 < tick_spacing <= MAX_TICK_SPACING,
            MIN_TICK <= tick <= MAX_TICK,
        ensures
            r.wf(),
            r@ == (PoolView {
                address,
                token_a,
                token_a_decimals,
                token_b,
                token_b_decimals,
                slot0: Slot0 { sqrt_price_x96, tick, ..Slot0::empty() },
                liquidity,
                fee,
                tick_spacing,
                tick_bitmap: Map::<i16, U256>::empty(),
                ticks: Map::<i32, Tick>::empty(),
                positions: Seq::<PositionEntry>::empty(),
                fee_growth_global_0_x128: U256 { l0: 0, l1: 0, l2: 0, l3: 0 },
                fee_growth_global_1_x128: U256 { l0: 0, l1: 0, l2: 0, l3: 0 },
                max_liquidity_per_tick: max_liquidity_per_tick_spec(tick_spacing),
                protocol_fees: ProtocolFees { token0: 0, token1: 0 },
                observations: Seq::<Observation>::empty(),
                last_log: None,
            }),
    {
        let max_liquidity_per_tick: u128 = max_liquidity_per_tick(tick_spacing);
        UniswapV3Pool {
            address,
            token_a,
            token_a_decimals,
            token_b,
            token_b_decimals,
            fee,
            liquidity,
            tick_spacing,
            max_liquidity_per_tick,
            slot0: Slot0 {
                sqrt_price_x96,
                tick,
                observation_index: 0,
                observation_cardinality: 0,
                observation_cardinality_next: 0,
                fee_protocol: 0,
                unlocked: false,
            },
            tick_bitmap: TickBitmap::new(),
            ticks: Ticks::new(),
            positions: Positions::new(),
            fee_growth_global_0_x128: U256 { l0: 0, l1: 0, l2: 0, l3: 0 },
            fee_growth_global_1_x128: U256 { l0: 0, l1: 0, l2: 0, l3: 0 },
            protocol_fees: ProtocolFees { token0: 0, token1: 0 },
            observations: Observations::new(),
            last_log: None,
        }
    }

    /// The address of the pool.
    pub fn address(&self) -> (r: Address)
        ensures
            r == self.address,
    {
        self.address
    }

    /// The two tokens of the pool, token 0 first.
    pub fn tokens(&self) -> (r: Vec<Address>)
        ensures
            r@ == seq![self.token_a, self.token_b],
    {
        let mut tokens: Vec<Address> = Vec::new();
        tokens.push(self.token_a);
        tokens.push(self.token_b);
        tokens
    }

    /// The token that a swap of `token_in` pays out.
    pub fn get_token_out(&self, token_in: Address) -> (r: Address)
        ensures
            r == (if self.token_a == token_in {
                self.token_b
            } else {
                self.token_a
            }),
    {
        if self.token_a == token_in {
            self.token_b
        } else {
            self.token_a
        }
    }

    /// The swap fee of the pool, in hundredths of a basis point.
    pub fn fee(&self) -> (r: u32)
        ensures
            r == self.fee,
    {
        self.fee
    }

    /// Whether both token addresses are known.
    pub fn data_is_populated(&self) -> (r: bool)
        ensures
            r == !(self.token_a == Address { high: 0, low: 0 } || self.token_b == Address {
                high: 0,
                low: 0,
            }),
    {
        !(self.token_a.is_zero() || self.token_b.is_zero())
    }

    /// The tick divided by the pool's spacing, rounded towards negative infinity.
    pub fn calculate_compressed(&self, tick: i32) -> (r: i32)
        requires
            self.tick_spacing > 0,
        ensures
            r == crate::amm::uniswap_v3::tick_bitmap::compressed_spec(
                tick as int,
                self.tick_spacing as int,
            ),
    {
        crate::amm::uniswap_v3::tick_bitmap::compress(tick, self.tick_spacing)
    }

    /// The word and the bit of a compressed tick in the bitmap.
    pub fn calculate_word_pos_bit_pos(&self, compressed: i32) -> (r: (i16, u8))
        ensures
            r.0 == crate::amm::uniswap_v3::tick_bitmap::word_pos_spec(compressed as int),
            r.1 == crate::amm::uniswap_v3::tick_bitmap::bit_pos_spec(compressed as int),
    {
        crate::amm::uniswap_v3::tick_bitmap::position(compressed)
    }

    /// The tick of the spacing grid that lies `dir` grid steps from the grid
    /// tick at or below the current tick.
    pub fn get_next_tick(&self, dir: i32) -> (r: i32)
        requires
            self.wf(),
            i32::MIN <= (crate::amm::uniswap_v3::tick_bitmap::compressed_spec(
                self.slot0.tick as int,
                self.tick_spacing as int,
            ) + dir) * self.tick_spacing <= i32::MAX,
        ensures
            r == (crate::amm::uniswap_v3::tick_bitmap::compressed_spec(
                self.slot0.tick as int,
                self.tick_spacing as int,
            ) + dir) * self.tick_spacing,
    {
        let compressed: i32 = crate::amm::uniswap_v3::tick_bitmap::compress(
            self.slot0.tick,
            self.tick_spacing,
        );
        proof {
            crate::amm::uniswap_v3::tick_bitmap::lemma_compressed_bounds(
                self.slot0.tick as int,
                self.tick_spacing as int,
            );
        }
        let steps: i64 = compressed as i64 + dir as i64;
        ((steps as i128) * (self.tick_spacing as i128)) as i32
    }
}

/// Computes the most liquidity that one tick may carry; see
/// [`max_liquidity_per_tick_spec`].
pub fn max_liquidity_per_tick(tick_spacing: i32) -> (r: u128)
    requires
        tick_spacing > 0,
    ensures
        r == max_liquidity_per_tick_spec(tick_spacing),
{
    let per_side: i32 = MAX_TICK / tick_spacing;
    proof {
        vstd::arithmetic::div_mod::lemma_div_is_ordered_by_denominator(
            887272,
            1,
            tick_spacing as int,
        );
        vstd::arithmetic::div_mod::lemma_div_pos_is_pos(887272, tick_spacing as int);
    }
    let num_ticks: u128 = (2 * per_side + 1) as u128;
    u128::MAX / num_ticks
}

} // verus!
