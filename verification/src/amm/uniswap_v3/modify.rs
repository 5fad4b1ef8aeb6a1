//! Liquidity changes of positions: mint, burn, collect and flash.

use vstd::prelude::*;

use crate::amm::uniswap_v3::liquidity_amounts::{
    amount_0_delta_spec, amount_1_delta_spec, get_amount_0_delta, get_amount_1_delta,
};
use crate::amm::uniswap_v3::liquidity_math::{add_delta, add_delta_spec};
use crate::amm::uniswap_v3::oracle::{observe_latest_spec, write_spec};
use crate::amm::uniswap_v3::pool::{
    ModifyPositionParams, PoolView, ProtocolFees, Slot0, UniswapV3Pool,
};
use crate::amm::uniswap_v3::position::{
    position_of, set_position_spec, Position, PositionKey,
};
use crate::amm::uniswap_v3::swap::{can_record_spec, fee_protocol_spec, truncate_time};
use crate::amm::uniswap_v3::swap_step::{
    fee_growth_spec, grow_fee_growth, protocol_fee_spec, take_protocol_fee,
};
use crate::amm::uniswap_v3::tick::{
    fee_growth_inside, fee_growth_inside_spec, tick_info, Accumulators, Tick,
};
use crate::amm::uniswap_v3::tick_bitmap::{flip_tick_spec, is_multiple_of_spacing};
use crate::amm::uniswap_v3::tick_math::{
    sqrt_price_at_tick, sqrt_price_at_tick_spec, MAX_TICK, MIN_TICK,
};
use crate::errors::{AMMError, ArithmeticError, LogicError};
use crate::primitives::u256::{lemma_from_nat_view, u256_from_nat};
use crate::primitives::wrapping::{sub_u256, wrapping_sub_u256};
use crate::primitives::{Address, I256, U256};

verus! {

/// Whether two ticks bound a range: the lower below the upper, both
/// between `MIN_TICK` and `MAX_TICK`.
pub open spec fn check_ticks_spec(tick_lower: i32, tick_upper: i32) -> Result<(), AMMError> {
    if tick_lower >= tick_upper {
        Err(AMMError::LogicError(LogicError::TickLowerNotBelowUpper))
    } else if tick_lower < MIN_TICK {
        Err(AMMError::LogicError(LogicError::TickLowerTooLow))
    } else if tick_upper > MAX_TICK {
        Err(AMMError::LogicError(LogicError::TickUpperTooHigh))
    } else {
        Ok(())
    }
}

/// What an update of a position works out before anything is written.
#[derive(Clone, Copy, Debug, PartialEq, Eq, Structural)]
pub struct PositionUpdate {
    /// The record of the lower tick after the update.
    pub lower: Tick,
    /// The record of the upper tick after the update.
    pub upper: Tick,
    /// Whether the lower tick went from unreferenced to referenced or back.
    pub flipped_lower: bool,
    /// Whether the upper tick went from unreferenced to referenced or back.
    pub flipped_upper: bool,
    /// The position after the update.
    pub position: Position,
}

/// The accumulators that a position update hands to its ticks.
pub open spec fn update_accumulators_spec(pool: PoolView, block_timestamp: u64) -> Accumulators {
    let latest = observe_latest_spec(
        pool.observations,
        truncate_time(block_timestamp),
        pool.slot0.tick,
        pool.slot0.observation_index,
        pool.liquidity,
    );
    Accumulators {
        fee_growth_global_0_x128: pool.fee_growth_global_0_x128,
        fee_growth_global_1_x128: pool.fee_growth_global_1_x128,
        seconds_per_liquidity_cumulative_x128: latest.1,
        tick_cumulative: latest.0,
        time: 0,
    }
}

/// The records of the two ticks of a range after a liquidity change, and
/// whether each has flipped. A tick that flips must be a multiple of the
/// tick spacing.
pub open spec fn update_ticks_spec(
    pool: PoolView,
    tick_lower: i32,
    tick_upper: i32,
    liquidity_delta: i128,
    tick: i32,
    block_timestamp: u64,
) -> Result<(Tick, Tick, bool, bool), AMMError> {
    if liquidity_delta == 0 {
        Ok((tick_info(pool.ticks, tick_lower), tick_info(pool.ticks, tick_upper), false, false))
    } else {
        let acc = update_accumulators_spec(pool, block_timestamp);
        match tick_info(pool.ticks, tick_lower).update_spec(
            tick_lower,
            tick,
            liquidity_delta,
            acc,
            false,
            pool.max_liquidity_per_tick,
        ) {
            Err(e) => Err(e),
            Ok(lower) => {
                let upper_before = if tick_upper == tick_lower {
                    lower.0
                } else {
                    tick_info(pool.ticks, tick_upper)
                };
                match upper_before.update_spec(
                    tick_upper,
                    tick,
                    liquidity_delta,
                    acc,
                    true,
                    pool.max_liquidity_per_tick,
                ) {
                    Err(e) => Err(e),
                    Ok(upper) => if lower.1 && (tick_lower as int) % (pool.tick_spacing as int)
                        != 0 {
                        Err(AMMError::TickSpacingError)
                    } else if upper.1 && (tick_upper as int) % (pool.tick_spacing as int) != 0 {
                        Err(AMMError::TickSpacingError)
                    } else {
                        Ok(
                            (
                                if tick_upper == tick_lower {
                                    upper.0
                                } else {
                                    lower.0
                                },
                                upper.0,
                                lower.1,
                                upper.1,
                            ),
                        )
                    },
                }
            },
        }
    }
}

/// What an update of the position of `owner` between two ticks works out:
/// the ticks' records, and the position credited with the fees that its
/// range has earned.
pub open spec fn update_position_plan_spec(
    pool: PoolView,
    owner: Address,
    tick_lower: i32,
    tick_upper: i32,
    liquidity_delta: i128,
    tick: i32,
    block_timestamp: u64,
) -> Result<PositionUpdate, AMMError> {
    match update_ticks_spec(pool, tick_lower, tick_upper, liquidity_delta, tick, block_timestamp) {
        Err(e) => Err(e),
        Ok(ticks) => {
            let inside = fee_growth_inside_spec(
                ticks.0,
                ticks.1,
                tick_lower,
                tick_upper,
                tick,
                pool.fee_growth_global_0_x128,
                pool.fee_growth_global_1_x128,
            );
            match position_of(
                pool.positions,
                PositionKey { owner, tick_lower, tick_upper },
            ).update_spec(liquidity_delta, inside.0, inside.1) {
                Err(e) => Err(e),
                Ok(position) => Ok(
                    PositionUpdate {
                        lower: ticks.0,
                        upper: ticks.1,
                        flipped_lower: ticks.2,
                        flipped_upper: ticks.3,
                        position,
                    },
                ),
            }
        },
    }
}

/// The tick records after a position update has been written: both ticks
/// take their new records, and a tick that a removal of liquidity has left
/// unreferenced is dropped.
pub open spec fn updated_ticks_spec(
    ticks: Map<i32, Tick>,
    tick_lower: i32,
    tick_upper: i32,
    liquidity_delta: i128,
    update: PositionUpdate,
) -> Map<i32, Tick> {
    if liquidity_delta == 0 {
        ticks
    } else {
        let stored = ticks.insert(tick_lower, update.lower).insert(tick_upper, update.upper);
        if liquidity_delta < 0 {
            let without_lower = if update.flipped_lower {
                stored.remove(tick_lower)
            } else {
                stored
            };
            if update.flipped_upper {
                without_lower.remove(tick_upper)
            } else {
                without_lower
            }
        } else {
            stored
        }
    }
}

/// The bitmap after a position update has been written: the bit of each
/// tick that has flipped is toggled.
pub open spec fn updated_bitmap_spec(
    bitmap: Map<i16, U256>,
    tick_spacing: i32,
    tick_lower: i32,
    tick_upper: i32,
    update: PositionUpdate,
) -> Map<i16, U256> {
    let after_lower = if update.flipped_lower {
        flip_tick_spec(bitmap, tick_lower as int, tick_spacing as int)
    } else {
        bitmap
    };
    if update.flipped_upper {
        flip_tick_spec(after_lower, tick_upper as int, tick_spacing as int)
    } else {
        after_lower
    }
}

/// The pool after a position update has been written.
pub open spec fn updated_pool_spec(
    pool: PoolView,
    owner: Address,
    tick_lower: i32,
    tick_upper: i32,
    liquidity_delta: i128,
    update: PositionUpdate,
) -> PoolView {
    PoolView {
        ticks: updated_ticks_spec(pool.ticks, tick_lower, tick_upper, liquidity_delta, update),
        tick_bitmap: updated_bitmap_spec(
            pool.tick_bitmap,
            pool.tick_spacing,
            tick_lower,
            tick_upper,
            update,
        ),
        positions: set_position_spec(
            pool.positions,
            PositionKey { owner, tick_lower, tick_upper },
            update.position,
        ),
        ..pool
    }
}

/// What a change of a position's liquidity works out before anything is
/// written.
#[derive(Clone, Copy, Debug, PartialEq, Eq, Structural)]
pub struct ModifyPlan {
    /// The update of the ticks and of the position.
    pub update: PositionUpdate,
    /// The amount of token 0 that the pool takes (positive) or owes (negative).
    pub amount0: I256,
    /// The amount of token 1 that the pool takes (positive) or owes (negative).
    pub amount1: I256,
    /// The in-range liquidity afterwards.
    pub liquidity: u128,
    /// Whether the current tick lies inside the range, so that the change
    /// moves the in-range liquidity and writes an observation.
    pub in_range: bool,
}

/// The zero amount.
pub open spec fn zero_i256() -> I256 {
    I256 { raw: U256 { l0: 0, l1: 0, l2: 0, l3: 0 } }
}

/// The amounts, the in-range liquidity and whether the range is active for
/// a liquidity change between two ticks at the pool's price: below the
/// range the change is all token 0, above it all token 1, and inside it
/// both, with the in-range liquidity changing along. Inside the range the
/// pool records an observation for the block, and the change is refused
/// where it cannot; see [`can_record_spec`].
pub open spec fn modify_amounts_spec(
    pool: PoolView,
    tick_lower: i32,
    tick_upper: i32,
    liquidity_delta: i128,
    block_timestamp: u64,
) -> Result<(I256, I256, u128, bool), AMMError> {
    let price_lower = u256_from_nat(sqrt_price_at_tick_spec(tick_lower as int));
    let price_upper = u256_from_nat(sqrt_price_at_tick_spec(tick_upper as int));
    if liquidity_delta == 0 {
        Ok((zero_i256(), zero_i256(), pool.liquidity, false))
    } else if pool.slot0.tick < tick_lower {
        match amount_0_delta_spec(price_lower, price_upper, liquidity_delta) {
            Err(e) => Err(e),
            Ok(amount0) => Ok((amount0, zero_i256(), pool.liquidity, false)),
        }
    } else if pool.slot0.tick < tick_upper {
        if !can_record_spec(pool, block_timestamp) {
            Err(AMMError::PoolDataError)
        } else {
            match amount_0_delta_spec(pool.slot0.sqrt_price_x96, price_upper, liquidity_delta) {
                Err(e) => Err(e),
                Ok(amount0) => match amount_1_delta_spec(
                    price_lower,
                    pool.slot0.sqrt_price_x96,
                    liquidity_delta,
                ) {
                    Err(e) => Err(e),
                    Ok(amount1) => match add_delta_spec(pool.liquidity, liquidity_delta) {
                        Err(e) => Err(e),
                        Ok(liquidity) => Ok((amount0, amount1, liquidity, true)),
                    },
                },
            }
        }
    } else {
        match amount_1_delta_spec(price_lower, price_upper, liquidity_delta) {
            Err(e) => Err(e),
            Ok(amount1) => Ok((zero_i256(), amount1, pool.liquidity, false)),
        }
    }
}

/// What a change of a position's liquidity works out: the ticks must bound
/// a range, the position and its ticks are updated, and the token amounts
/// follow from the prices.
pub open spec fn modify_position_plan_spec(
    pool: PoolView,
    params: ModifyPositionParams,
    block_timestamp: u64,
) -> Result<ModifyPlan, AMMError> {
    match check_ticks_spec(params.tick_lower, params.tick_upper) {
        Err(e) => Err(e),
        Ok(_) => match update_position_plan_spec(
            pool,
            params.owner,
            params.tick_lower,
            params.tick_upper,
            params.liquidity_delta,
            pool.slot0.tick,
            block_timestamp,
        ) {
            Err(e) => Err(e),
            Ok(update) => match modify_amounts_spec(
                pool,
                params.tick_lower,
                params.tick_upper,
                params.liquidity_delta,
                block_timestamp,
            ) {
                Err(e) => Err(e),
                Ok(amounts) => Ok(
                    ModifyPlan {
                        update,
                        amount0: amounts.0,
                        amount1: amounts.1,
                        liquidity: amounts.2,
                        in_range: amounts.3,
                    },
                ),
            },
        },
    }
}

/// The pool after a planned change of a position has been written: the
/// position update, and for an active range the in-range liquidity and one
/// observation with the tick and the liquidity from before.
pub open spec fn modified_pool_spec(
    pool: PoolView,
    params: ModifyPositionParams,
    block_timestamp: u64,
    plan: ModifyPlan,
) -> PoolView {
    let updated = updated_pool_spec(
        pool,
        params.owner,
        params.tick_lower,
        params.tick_upper,
        params.liquidity_delta,
        plan.update,
    );
    if plan.in_range {
        let written = write_spec(
            pool.observations,
            pool.slot0.observation_index,
            truncate_time(block_timestamp),
            pool.slot0.tick,
            pool.liquidity,
            pool.slot0.observation_cardinality,
            pool.slot0.observation_cardinality_next,
        );
        PoolView {
            observations: written.0,
            slot0: Slot0 {
                observation_index: written.1,
                observation_cardinality: written.2,
                ..pool.slot0
            },
            liquidity: plan.liquidity,
            ..updated
        }
    } else {
        updated
    }
}

/// The outcome of a change of a position: the two amounts and the pool
/// afterwards.
pub struct ModifyOutcome {
    pub amount0: I256,
    pub amount1: I256,
    pub pool: PoolView,
}

/// The outcome of a change of a position's liquidity.
pub open spec fn modify_position_spec(
    pool: PoolView,
    params: ModifyPositionParams,
    block_timestamp: u64,
) -> Result<ModifyOutcome, AMMError> {
    match modify_position_plan_spec(pool, params, block_timestamp) {
        Err(e) => Err(e),
        Ok(plan) => Ok(
            ModifyOutcome {
                amount0: plan.amount0,
                amount1: plan.amount1,
                pool: modified_pool_spec(pool, params, block_timestamp, plan),
            },
        ),
    }
}

/// The liquidity of a mint or a burn as a signed change.
pub open spec fn liquidity_delta_spec(amount: u128, burn: bool) -> Result<i128, AMMError> {
    if amount > i128::MAX {
        Err(AMMError::ArithmeticError(ArithmeticError::U128ConversionError))
    } else if burn {
        Ok((-(amount as int)) as i128)
    } else {
        Ok(amount as i128)
    }
}

/// The outcome of a mint: the amounts of the two tokens that the minted
/// liquidity costs, and the pool afterwards.
pub open spec fn mint_spec(
    pool: PoolView,
    recipient: Address,
    tick_lower: i32,
    tick_upper: i32,
    amount: u128,
    block_timestamp: u64,
) -> Result<(U256, U256, PoolView), AMMError> {
    if amount == 0 {
        Err(AMMError::LogicError(LogicError::MintAmountZero))
    } else {
        match liquidity_delta_spec(amount, false) {
            Err(e) => Err(e),
            Ok(liquidity_delta) => match modify_position_spec(
                pool,
                ModifyPositionParams { owner: recipient, tick_lower, tick_upper, liquidity_delta },
                block_timestamp,
            ) {
                Err(e) => Err(e),
                Ok(outcome) => Ok((outcome.amount0.raw, outcome.amount1.raw, outcome.pool)),
            },
        }
    }
}

/// The position after the amounts of a burn have been added to what it is owed.
pub open spec fn credit_burn_spec(position: Position, amount0: U256, amount1: U256) -> Result<
    Position,
    AMMError,
> {
    if amount0@ == 0 && amount1@ == 0 {
        Ok(position)
    } else if amount0@ > u128::MAX || amount1@ > u128::MAX {
        Err(AMMError::ArithmeticError(ArithmeticError::U128ConversionError))
    } else if position.tokens_owed0 + amount0@ > u128::MAX || position.tokens_owed1 + amount1@
        > u128::MAX {
        Err(AMMError::ArithmeticError(ArithmeticError::Overflow))
    } else {
        Ok(
            Position {
                tokens_owed0: (position.tokens_owed0 + amount0@) as u128,
                tokens_owed1: (position.tokens_owed1 + amount1@) as u128,
                ..position
            },
        )
    }
}

/// What a burn works out: the plan of the liquidity change with the
/// position credited, and the two amounts that the burnt liquidity frees.
pub open spec fn burn_plan_spec(
    pool: PoolView,
    owner: Address,
    tick_lower: i32,
    tick_upper: i32,
    amount: u128,
    block_timestamp: u64,
) -> Result<(ModifyPlan, U256, U256), AMMError> {
    match liquidity_delta_spec(amount, true) {
        Err(e) => Err(e),
        Ok(liquidity_delta) => match modify_position_plan_spec(
            pool,
            ModifyPositionParams { owner, tick_lower, tick_upper, liquidity_delta },
            block_timestamp,
        ) {
            Err(e) => Err(e),
            Ok(plan) => {
                let amount0 = sub_u256(U256 { l0: 0, l1: 0, l2: 0, l3: 0 }, plan.amount0.raw);
                let amount1 = sub_u256(U256 { l0: 0, l1: 0, l2: 0, l3: 0 }, plan.amount1.raw);
                match credit_burn_spec(plan.update.position, amount0, amount1) {
                    Err(e) => Err(e),
                    Ok(position) => Ok(
                        (
                            ModifyPlan {
                                update: PositionUpdate { position, ..plan.update },
                                ..plan
                            },
                            amount0,
                            amount1,
                        ),
                    ),
                }
            },
        },
    }
}

/// The outcome of a burn: the amounts of the two tokens that the burnt
/// liquidity frees, which the position is then owed, and the pool
/// afterwards.
pub open spec fn burn_spec(
    pool: PoolView,
    owner: Address,
    tick_lower: i32,
    tick_upper: i32,
    amount: u128,
    block_timestamp: u64,
) -> Result<(U256, U256, PoolView), AMMError> {
    match burn_plan_spec(pool, owner, tick_lower, tick_upper, amount, block_timestamp) {
        Err(e) => Err(e),
        Ok(planned) => Ok(
            (
                planned.1,
                planned.2,
                modified_pool_spec(
                    pool,
                    ModifyPositionParams {
                        owner,
                        tick_lower,
                        tick_upper,
                        liquidity_delta: (-(amount as int)) as i128,
                    },
                    block_timestamp,
                    planned.0,
                ),
            ),
        ),
    }
}

/// The outcome of a collection: what is paid of each token, and the pool
/// afterwards.
pub open spec fn collect_spec(
    pool: PoolView,
    owner: Address,
    tick_lower: i32,
    tick_upper: i32,
    amount_0_requested: u128,
    amount_1_requested: u128,
) -> (u128, u128, PoolView) {
    let key = PositionKey { owner, tick_lower, tick_upper };
    let collected = position_of(pool.positions, key).collect_spec(
        amount_0_requested,
        amount_1_requested,
    );
    (
        collected.1,
        collected.2,
        PoolView { positions: set_position_spec(pool.positions, key, collected.0), ..pool },
    )
}

/// The protocol's fees and the fee growth of one token after a flash loan
/// has paid `paid` of it.
pub open spec fn flash_side_spec(
    paid: U256,
    fee_protocol: u8,
    protocol_fee: u128,
    fee_growth: U256,
    liquidity: u128,
) -> Result<(u128, U256), AMMError> {
    match protocol_fee_spec(paid, fee_protocol, protocol_fee) {
        Err(e) => Err(e),
        Ok(split) => match fee_growth_spec(fee_growth, split.0, liquidity) {
            Err(e) => Err(e),
            Ok(growth) => Ok((split.1, growth)),
        },
    }
}

/// The pool after a flash loan has paid its fees: of what is paid of each
/// token the protocol takes its share, and the rest goes to the fee growth.
pub open spec fn flash_spec(pool: PoolView, paid0: U256, paid1: U256) -> Result<
    PoolView,
    AMMError,
> {
    if pool.liquidity == 0 {
        Err(AMMError::LogicError(LogicError::NoLiquidity))
    } else {
        match flash_side_spec(
            paid0,
            fee_protocol_spec(pool.slot0.fee_protocol, true),
            pool.protocol_fees.token0,
            pool.fee_growth_global_0_x128,
            pool.liquidity,
        ) {
            Err(e) => Err(e),
            Ok(side0) => match flash_side_spec(
                paid1,
                fee_protocol_spec(pool.slot0.fee_protocol, false),
                pool.protocol_fees.token1,
                pool.fee_growth_global_1_x128,
                pool.liquidity,
            ) {
                Err(e) => Err(e),
                Ok(side1) => Ok(
                    PoolView {
                        protocol_fees: ProtocolFees { token0: side0.0, token1: side1.0 },
                        fee_growth_global_0_x128: side0.1,
                        fee_growth_global_1_x128: side1.1,
                        ..pool
                    },
                ),
            },
        }
    }
}

/// Works out one side of a flash loan's fees; see [`flash_side_spec`].
pub fn flash_side(
    paid: U256,
    fee_protocol: u8,
    protocol_fee: u128,
    fee_growth: U256,
    liquidity: u128,
) -> (r: Result<(u128, U256), AMMError>)
    ensures
        r == flash_side_spec(paid, fee_protocol, protocol_fee, fee_growth, liquidity),
{
    let split: (U256, u128) = take_protocol_fee(paid, fee_protocol, protocol_fee)?;
    let growth: U256 = grow_fee_growth(fee_growth, split.0, liquidity)?;
    Ok((split.1, growth))
}

/// Adds the amounts of a burn to what a position is owed; see
/// [`credit_burn_spec`].
pub fn credit_burn(position: Position, amount0: U256, amount1: U256) -> (r: Result<
    Position,
    AMMError,
>)
    ensures
        r == credit_burn_spec(position, amount0, amount1),
{
    if amount0.is_zero() && amount1.is_zero() {
        return Ok(position);
    }
    match (amount0.to_u128(), amount1.to_u128()) {
        (Some(a0), Some(a1)) => {
            match (position.tokens_owed0.checked_add(a0), position.tokens_owed1.checked_add(a1)) {
                (Some(owed0), Some(owed1)) => Ok(
                    Position {
                        liquidity: position.liquidity,
                        fee_growth_inside_0_last_x128: position.fee_growth_inside_0_last_x128,
                        fee_growth_inside_1_last_x128: position.fee_growth_inside_1_last_x128,
                        tokens_owed0: owed0,
                        tokens_owed1: owed1,
                    },
                ),
                _ => Err(AMMError::ArithmeticError(ArithmeticError::Overflow)),
            }
        },
        _ => Err(AMMError::ArithmeticError(ArithmeticError::U128ConversionError)),
    }
}

/// The liquidity of a mint or a burn as a signed change; see
/// [`liquidity_delta_spec`].
pub fn liquidity_delta(amount: u128, burn: bool) -> (r: Result<i128, AMMError>)
    ensures
        r == liquidity_delta_spec(amount, burn),
{
    if amount > 0x7fff_ffff_ffff_ffff_ffff_ffff_ffff_ffffu128 {
        Err(AMMError::ArithmeticError(ArithmeticError::U128ConversionError))
    } else if burn {
        Ok(-(amount as i128))
    } else {
        Ok(amount as i128)
    }
}

impl UniswapV3Pool {
    /// Checks that two ticks bound a range; see [`check_ticks_spec`].
    pub fn check_ticks(tick_lower: i32, tick_upper: i32) -> (r: Result<(), AMMError>)
        ensures
            r == check_ticks_spec(tick_lower, tick_upper),
    {
        if tick_lower >= tick_upper {
            Err(AMMError::LogicError(LogicError::TickLowerNotBelowUpper))
        } else if tick_lower < MIN_TICK {
            Err(AMMError::LogicError(LogicError::TickLowerTooLow))
        } else if tick_upper > MAX_TICK {
            Err(AMMError::LogicError(LogicError::TickUpperTooHigh))
        } else {
            Ok(())
        }
    }

    /// The accumulators that a position update hands to its ticks.
    fn update_accumulators(&self, block_timestamp: u64) -> (r: Accumulators)
        ensures
            r == update_accumulators_spec(self@, block_timestamp),
    {
        let latest: (i64, U256) = self.observations.observe_latest(
            (block_timestamp % 0x1_0000_0000u64) as u32,
            self.slot0.tick,
            self.slot0.observation_index,
            self.liquidity,
        );
        Accumulators {
            fee_growth_global_0_x128: self.fee_growth_global_0_x128,
            fee_growth_global_1_x128: self.fee_growth_global_1_x128,
            seconds_per_liquidity_cumulative_x128: latest.1,
            tick_cumulative: latest.0,
            time: 0,
        }
    }

    /// Works out the records of the two ticks of a range; see
    /// [`update_ticks_spec`].
    fn plan_update_ticks(
        &self,
        tick_lower: i32,
        tick_upper: i32,
        liquidity_delta: i128,
        tick: i32,
        block_timestamp: u64,
    ) -> (r: Result<(Tick, Tick, bool, bool), AMMError>)
        requires
            self.tick_spacing > 0,
        ensures
            r == update_ticks_spec(
                self@,
                tick_lower,
                tick_upper,
                liquidity_delta,
                tick,
                block_timestamp,
            ),
    {
        if liquidity_delta == 0 {
            return Ok((self.ticks.get(tick_lower), self.ticks.get(tick_upper), false, false));
        }
        let acc: Accumulators = self.update_accumulators(block_timestamp);
        let lower: (Tick, bool) = self.ticks.get(tick_lower).update(
            tick_lower,
            tick,
            liquidity_delta,
            acc,
            false,
            self.max_liquidity_per_tick,
        )?;
        let upper_before: Tick = if tick_upper == tick_lower {
            lower.0
        } else {
            self.ticks.get(tick_upper)
        };
        let upper: (Tick, bool) = upper_before.update(
            tick_upper,
            tick,
            liquidity_delta,
            acc,
            true,
            self.max_liquidity_per_tick,
        )?;
        if lower.1 && !is_multiple_of_spacing(tick_lower, self.tick_spacing) {
            return Err(AMMError::TickSpacingError);
        }
        if upper.1 && !is_multiple_of_spacing(tick_upper, self.tick_spacing) {
            return Err(AMMError::TickSpacingError);
        }
        Ok(
            (
                if tick_upper == tick_lower {
                    upper.0
                } else {
                    lower.0
                },
                upper.0,
                lower.1,
                upper.1,
            ),
        )
    }

    /// Works out an update of a position without writing to the pool; see
    /// [`update_position_plan_spec`].
    pub fn plan_update_position(
        &self,
        owner: Address,
        tick_lower: i32,
        tick_upper: i32,
        liquidity_delta: i128,
        tick: i32,
        block_timestamp: u64,
    ) -> (r: Result<PositionUpdate, AMMError>)
        requires
            self.tick_spacing > 0,
        ensures
            r == update_position_plan_spec(
                self@,
                owner,
                tick_lower,
                tick_upper,
                liquidity_delta,
                tick,
                block_timestamp,
            ),
    {
        let ticks: (Tick, Tick, bool, bool) = self.plan_update_ticks(
            tick_lower,
            tick_upper,
            liquidity_delta,
            tick,
            block_timestamp,
        )?;
        let inside: (U256, U256) = fee_growth_inside(
            ticks.0,
            ticks.1,
            tick_lower,
            tick_upper,
            tick,
            self.fee_growth_global_0_x128,
            self.fee_growth_global_1_x128,
        );
        let mut position: Position = self.positions.get(
            PositionKey { owner, tick_lower, tick_upper },
        );
        position.update(liquidity_delta, inside.0, inside.1)?;
        Ok(
            PositionUpdate {
                lower: ticks.0,
                upper: ticks.1,
                flipped_lower: ticks.2,
                flipped_upper: ticks.3,
                position,
            },
        )
    }

    /// Writes a planned update of a position to the pool; see
    /// [`updated_pool_spec`].
    pub fn commit_update_position(
        &mut self,
        owner: Address,
        tick_lower: i32,
        tick_upper: i32,
        liquidity_delta: i128,
        update: &PositionUpdate,
    )
        requires
            old(self).tick_spacing > 0,
            update.flipped_lower ==> (tick_lower as int) % (old(self).tick_spacing as int) == 0,
            update.flipped_upper ==> (tick_upper as int) % (old(self).tick_spacing as int) == 0,
        ensures
            final(self)@ == updated_pool_spec(
                old(self)@,
                owner,
                tick_lower,
                tick_upper,
                liquidity_delta,
                *update,
            ),
    {
        if liquidity_delta != 0 {
            self.ticks.set(tick_lower, update.lower);
            self.ticks.set(tick_upper, update.upper);
        }
        if update.flipped_lower {
            let _ = self.tick_bitmap.flip_tick(tick_lower, self.tick_spacing);
        }
        if update.flipped_upper {
            let _ = self.tick_bitmap.flip_tick(tick_upper, self.tick_spacing);
        }
        self.positions.set(PositionKey { owner, tick_lower, tick_upper }, update.position);
        if liquidity_delta < 0 {
            if update.flipped_lower {
                self.ticks.remove(tick_lower);
            }
            if update.flipped_upper {
                self.ticks.remove(tick_upper);
            }
        }
    }

    /// Updates the position of `owner` between two ticks and the records of
    /// its ticks; see [`update_position_plan_spec`] and
    /// [`updated_pool_spec`]. On an error the pool is unchanged.
    pub fn update_position(
        &mut self,
        owner: Address,
        tick_lower: i32,
        tick_upper: i32,
        liquidity_delta: i128,
        tick: i32,
        block_timestamp: u64,
    ) -> (r: Result<(), AMMError>)
        requires
            old(self).wf(),
        ensures
            final(self).wf(),
            match update_position_plan_spec(
                old(self)@,
                owner,
                tick_lower,
                tick_upper,
                liquidity_delta,
                tick,
                block_timestamp,
            ) {
                Ok(update) => r is Ok && final(self)@ == updated_pool_spec(
                    old(self)@,
                    owner,
                    tick_lower,
                    tick_upper,
                    liquidity_delta,
                    update,
                ),
                Err(e) => r == Err::<(), AMMError>(e) && final(self)@ == old(self)@,
            },
    {
        let update: PositionUpdate = self.plan_update_position(
            owner,
            tick_lower,
            tick_upper,
            liquidity_delta,
            tick,
            block_timestamp,
        )?;
        self.commit_update_position(owner, tick_lower, tick_upper, liquidity_delta, &update);
        Ok(())
    }

    /// Works out the amounts of a liquidity change; see
    /// [`modify_amounts_spec`].
    fn plan_modify_amounts(
        &self,
        tick_lower: i32,
        tick_upper: i32,
        liquidity_delta: i128,
        block_timestamp: u64,
    ) -> (r: Result<(I256, I256, u128, bool), AMMError>)
        requires
            MIN_TICK <= tick_lower <= MAX_TICK,
            MIN_TICK <= tick_upper <= MAX_TICK,
        ensures
            r == modify_amounts_spec(
                self@,
                tick_lower,
                tick_upper,
                liquidity_delta,
                block_timestamp,
            ),
    {
        broadcast use lemma_from_nat_view;

        let zero = I256 { raw: U256 { l0: 0, l1: 0, l2: 0, l3: 0 } };
        if liquidity_delta == 0 {
            Ok((zero, zero, self.liquidity, false))
        } else if self.slot0.tick < tick_lower {
            let amount0: I256 = get_amount_0_delta(
                sqrt_price_at_tick(tick_lower),
                sqrt_price_at_tick(tick_upper),
                liquidity_delta,
            )?;
            Ok((amount0, zero, self.liquidity, false))
        } else if self.slot0.tick < tick_upper {
            if !self.can_record(block_timestamp) {
                return Err(AMMError::PoolDataError);
            }
            let amount0: I256 = get_amount_0_delta(
                self.slot0.sqrt_price_x96,
                sqrt_price_at_tick(tick_upper),
                liquidity_delta,
            )?;
            let amount1: I256 = get_amount_1_delta(
                sqrt_price_at_tick(tick_lower),
                self.slot0.sqrt_price_x96,
                liquidity_delta,
            )?;
            let liquidity: u128 = add_delta(self.liquidity, liquidity_delta)?;
            Ok((amount0, amount1, liquidity, true))
        } else {
            let amount1: I256 = get_amount_1_delta(
                sqrt_price_at_tick(tick_lower),
                sqrt_price_at_tick(tick_upper),
                liquidity_delta,
            )?;
            Ok((zero, amount1, self.liquidity, false))
        }
    }

    /// Works out a change of a position's liquidity without writing to the
    /// pool; see [`modify_position_plan_spec`].
    pub fn plan_modify_position(&self, params: ModifyPositionParams, block_timestamp: u64) -> (r:
        Result<ModifyPlan, AMMError>)
        requires
            self.wf(),
        ensures
            r == modify_position_plan_spec(self@, params, block_timestamp),
            r matches Ok(plan) ==> {
                &&& plan.in_range ==> can_record_spec(self@, block_timestamp)
                &&& plan.update.flipped_lower ==> (params.tick_lower as int) % (
                self.tick_spacing as int) == 0
                &&& plan.update.flipped_upper ==> (params.tick_upper as int) % (
                self.tick_spacing as int) == 0
            },
    {
        Self::check_ticks(params.tick_lower, params.tick_upper)?;
        let update: PositionUpdate = self.plan_update_position(
            params.owner,
            params.tick_lower,
            params.tick_upper,
            params.liquidity_delta,
            self.slot0.tick,
            block_timestamp,
        )?;
        let amounts: (I256, I256, u128, bool) = self.plan_modify_amounts(
            params.tick_lower,
            params.tick_upper,
            params.liquidity_delta,
            block_timestamp,
        )?;
        Ok(
            ModifyPlan {
                update,
                amount0: amounts.0,
                amount1: amounts.1,
                liquidity: amounts.2,
                in_range: amounts.3,
            },
        )
    }

    /// Writes a planned change of a position to the pool; see
    /// [`modified_pool_spec`].
    pub fn commit_modify_position(
        &mut self,
        params: ModifyPositionParams,
        block_timestamp: u64,
        plan: &ModifyPlan,
    )
        requires
            old(self).wf(),
            plan.in_range ==> can_record_spec(old(self)@, block_timestamp),
            plan.update.flipped_lower ==> (params.tick_lower as int) % (
            old(self).tick_spacing as int) == 0,
            plan.update.flipped_upper ==> (params.tick_upper as int) % (
            old(self).tick_spacing as int) == 0,
        ensures
            final(self).wf(),
            final(self)@ == modified_pool_spec(old(self)@, params, block_timestamp, *plan),
    {
        if plan.in_range {
            let (observation_index, observation_cardinality): (u16, u16) = self.observations.write(
                self.slot0.observation_index,
                (block_timestamp % 0x1_0000_0000u64) as u32,
                self.slot0.tick,
                self.liquidity,
                self.slot0.observation_cardinality,
                self.slot0.observation_cardinality_next,
            );
            self.slot0.observation_index = observation_index;
            self.slot0.observation_cardinality = observation_cardinality;
            self.liquidity = plan.liquidity;
        }
        self.commit_update_position(
            params.owner,
            params.tick_lower,
            params.tick_upper,
            params.liquidity_delta,
            &plan.update,
        );
    }

    /// Changes the liquidity of a position and returns the amounts of the
    /// two tokens that the pool takes (positive) or owes (negative); see
    /// [`modify_position_spec`]. On an error the pool is unchanged.
    pub fn modify_position(&mut self, params: ModifyPositionParams, block_timestamp: u64) -> (r:
        Result<(I256, I256), AMMError>)
        requires
            old(self).wf(),
        ensures
            final(self).wf(),
            match modify_position_spec(old(self)@, params, block_timestamp) {
                Ok(outcome) => r == Ok::<(I256, I256), AMMError>(
                    (outcome.amount0, outcome.amount1),
                ) && final(self)@ == outcome.pool,
                Err(e) => r == Err::<(I256, I256), AMMError>(e) && final(self)@ == old(self)@,
            },
    {
        let plan: ModifyPlan = self.plan_modify_position(params, block_timestamp)?;
        self.commit_modify_position(params, block_timestamp, &plan);
        Ok((plan.amount0, plan.amount1))
    }

    /// Adds `amount` of liquidity to the position of `recipient` between two
    /// ticks and returns what it costs of each token; see [`mint_spec`]. On
    /// an error the pool is unchanged.
    pub fn mint(
        &mut self,
        recipient: Address,
        tick_lower: i32,
        tick_upper: i32,
        amount: u128,
        block_timestamp: u64,
    ) -> (r: Result<(U256, U256), AMMError>)
        requires
            old(self).wf(),
        ensures
            final(self).wf(),
            match mint_spec(old(self)@, recipient, tick_lower, tick_upper, amount, block_timestamp) {
                Ok(outcome) => r == Ok::<(U256, U256), AMMError>((outcome.0, outcome.1))
                    && final(self)@ == outcome.2,
                Err(e) => r == Err::<(U256, U256), AMMError>(e) && final(self)@ == old(self)@,
            },
    {
        if amount == 0 {
            return Err(AMMError::LogicError(LogicError::MintAmountZero));
        }
        let delta: i128 = liquidity_delta(amount, false)?;
        let amounts: (I256, I256) = self.modify_position(
            ModifyPositionParams { owner: recipient, tick_lower, tick_upper, liquidity_delta: delta },
            block_timestamp,
        )?;
        Ok((amounts.0.into_raw(), amounts.1.into_raw()))
    }

    /// Works out a burn without writing to the pool; see [`burn_plan_spec`].
    pub fn plan_burn(
        &self,
        owner: Address,
        tick_lower: i32,
        tick_upper: i32,
        amount: u128,
        block_timestamp: u64,
    ) -> (r: Result<(ModifyPlan, U256, U256), AMMError>)
        requires
            self.wf(),
        ensures
            r == burn_plan_spec(self@, owner, tick_lower, tick_upper, amount, block_timestamp),
            r matches Ok(planned) ==> {
                &&& planned.0.in_range ==> can_record_spec(self@, block_timestamp)
                &&& planned.0.update.flipped_lower ==> (tick_lower as int) % (
                self.tick_spacing as int) == 0
                &&& planned.0.update.flipped_upper ==> (tick_upper as int) % (
                self.tick_spacing as int) == 0
            },
    {
        let delta: i128 = liquidity_delta(amount, true)?;
        let plan: ModifyPlan = self.plan_modify_position(
            ModifyPositionParams { owner, tick_lower, tick_upper, liquidity_delta: delta },
            block_timestamp,
        )?;
        let amount0: U256 = wrapping_sub_u256(U256 { l0: 0, l1: 0, l2: 0, l3: 0 }, plan.amount0.raw);
        let amount1: U256 = wrapping_sub_u256(U256 { l0: 0, l1: 0, l2: 0, l3: 0 }, plan.amount1.raw);
        let position: Position = credit_burn(plan.update.position, amount0, amount1)?;
        Ok(
            (
                ModifyPlan {
                    update: PositionUpdate {
                        lower: plan.update.lower,
                        upper: plan.update.upper,
                        flipped_lower: plan.update.flipped_lower,
                        flipped_upper: plan.update.flipped_upper,
                        position,
                    },
                    amount0: plan.amount0,
                    amount1: plan.amount1,
                    liquidity: plan.liquidity,
                    in_range: plan.in_range,
                },
                amount0,
                amount1,
            ),
        )
    }

    /// Removes `amount` of liquidity from the position of `owner` between
    /// two ticks and returns what it frees of each token, which the position
    /// is owed from then on; see [`burn_spec`]. On an error the pool is
    /// unchanged.
    pub fn burn(
        &mut self,
        owner: Address,
        tick_lower: i32,
        tick_upper: i32,
        amount: u128,
        block_timestamp: u64,
    ) -> (r: Result<(U256, U256), AMMError>)
        requires
            old(self).wf(),
        ensures
            final(self).wf(),
            match burn_spec(old(self)@, owner, tick_lower, tick_upper, amount, block_timestamp) {
                Ok(outcome) => r == Ok::<(U256, U256), AMMError>((outcome.0, outcome.1))
                    && final(self)@ == outcome.2,
                Err(e) => r == Err::<(U256, U256), AMMError>(e) && final(self)@ == old(self)@,
            },
    {
        let planned: (ModifyPlan, U256, U256) = self.plan_burn(
            owner,
            tick_lower,
            tick_upper,
            amount,
            block_timestamp,
        )?;
        self.commit_modify_position(
            ModifyPositionParams { owner, tick_lower, tick_upper, liquidity_delta: -(amount as i128) },
            block_timestamp,
            &planned.0,
        );
        Ok((planned.1, planned.2))
    }

    /// Pays out owed tokens of the position of `owner` between two ticks, at
    /// most the requested amounts; see [`collect_spec`].
    pub fn collect(
        &mut self,
        owner: Address,
        _recipient: Address,
        tick_lower: i32,
        tick_upper: i32,
        amount_0_requested: u128,
        amount_1_requested: u128,
    ) -> (r: (u128, u128))
        ensures
            (r.0, r.1, final(self)@) == collect_spec(
                old(self)@,
                owner,
                tick_lower,
                tick_upper,
                amount_0_requested,
                amount_1_requested,
            ),
    {
        let key = PositionKey { owner, tick_lower, tick_upper };
        let mut position: Position = self.positions.get(key);
        let paid: (u128, u128) = position.collect(amount_0_requested, amount_1_requested);
        self.positions.set(key, position);
        paid
    }

    /// Books the fees of a flash loan: what was paid back beyond the loan
    /// goes to the protocol and to the fee growth; see [`flash_spec`]. On an
    /// error the pool is unchanged.
    pub fn flash(
        &mut self,
        _recipient: Address,
        _amount0: U256,
        _amount1: U256,
        paid0: U256,
        paid1: U256,
    ) -> (r: Result<(), AMMError>)
        ensures
            match flash_spec(old(self)@, paid0, paid1) {
                Ok(pool) => r is Ok && final(self)@ == pool,
                Err(e) => r == Err::<(), AMMError>(e) && final(self)@ == old(self)@,
            },
    {
        if self.liquidity == 0 {
            return Err(AMMError::LogicError(LogicError::NoLiquidity));
        }
        let side0: (u128, U256) = flash_side(
            paid0,
            self.slot0.fee_protocol % 16,
            self.protocol_fees.token0,
            self.fee_growth_global_0_x128,
            self.liquidity,
        )?;
        let side1: (u128, U256) = flash_side(
            paid1,
            self.slot0.fee_protocol / 16,
            self.protocol_fees.token1,
            self.fee_growth_global_1_x128,
            self.liquidity,
        )?;
        self.protocol_fees.token0 = side0.0;
        self.protocol_fees.token1 = side1.0;
        self.fee_growth_global_0_x128 = side0.1;
        self.fee_growth_global_1_x128 = side1.1;
        Ok(())
    }
}

} // verus!
