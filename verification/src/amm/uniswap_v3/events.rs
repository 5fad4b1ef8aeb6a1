//! Replay of the pool's events.

use vstd::prelude::*;

use crate::amm::uniswap_v3::modify::{
    burn_plan_spec, collect_spec, flash_spec, liquidity_delta, mint_spec, modified_pool_spec,
    ModifyPlan,
};
use crate::amm::uniswap_v3::oracle::{grow_spec, initial_observation, save_spec};
use crate::amm::uniswap_v3::pool::{
    LogPosition, ModifyPositionParams, PoolView, ProtocolFees, Slot0, UniswapV3Pool,
};
use crate::amm::uniswap_v3::position::PositionKey;
use crate::amm::uniswap_v3::swap::{
    simulation_limit, simulation_limit_spec, swap_spec, truncate_time, SwapPlan,
};
use crate::amm::uniswap_v3::tick_math::{MAX_TICK, MIN_TICK};
use crate::errors::{AMMError, ArithmeticError, EventLogError};
use crate::primitives::u256::u256_from_nat;
use crate::primitives::{Address, I256, U256};

verus! {

/// The first event of a pool, which sets its price.
#[derive(Clone, Copy, Debug, PartialEq, Eq, Structural)]
pub struct InitializeEvent {
    pub sqrt_price_x96: U256,
    pub tick: i32,
}

/// A swap, with the pool's balance changes and its state afterwards.
#[derive(Clone, Copy, Debug, PartialEq, Eq, Structural)]
pub struct SwapEvent {
    pub sender: Address,
    pub recipient: Address,
    pub amount0: I256,
    pub amount1: I256,
    pub sqrt_price_x96: U256,
    pub liquidity: u128,
    pub tick: i32,
}

/// Liquidity added to a position.
#[derive(Clone, Copy, Debug, PartialEq, Eq, Structural)]
pub struct MintEvent {
    pub sender: Address,
    pub owner: Address,
    pub tick_lower: i32,
    pub tick_upper: i32,
    pub amount: u128,
    pub amount0: U256,
    pub amount1: U256,
}

/// Liquidity removed from a position.
#[derive(Clone, Copy, Debug, PartialEq, Eq, Structural)]
pub struct BurnEvent {
    pub owner: Address,
    pub tick_lower: i32,
    pub tick_upper: i32,
    pub amount: u128,
    pub amount0: U256,
    pub amount1: U256,
}

/// Owed tokens paid out to a position's owner.
#[derive(Clone, Copy, Debug, PartialEq, Eq, Structural)]
pub struct CollectEvent {
    pub owner: Address,
    pub recipient: Address,
    pub tick_lower: i32,
    pub tick_upper: i32,
    pub amount0: u128,
    pub amount1: u128,
}

/// Protocol fees withdrawn.
#[derive(Clone, Copy, Debug, PartialEq, Eq, Structural)]
pub struct CollectProtocolEvent {
    pub sender: Address,
    pub recipient: Address,
    pub amount0: u128,
    pub amount1: u128,
}

/// A flash loan paid back with its fees.
#[derive(Clone, Copy, Debug, PartialEq, Eq, Structural)]
pub struct FlashEvent {
    pub sender: Address,
    pub recipient: Address,
    pub amount0: U256,
    pub amount1: U256,
    pub paid0: U256,
    pub paid1: U256,
}

/// The protocol's fee shares changed.
#[derive(Clone, Copy, Debug, PartialEq, Eq, Structural)]
pub struct SetFeeProtocolEvent {
    pub fee_protocol_0_old: u8,
    pub fee_protocol_1_old: u8,
    pub fee_protocol_0_new: u8,
    pub fee_protocol_1_new: u8,
}

/// The ring of observations prepared for more slots.
#[derive(Clone, Copy, Debug, PartialEq, Eq, Structural)]
pub struct IncreaseObservationCardinalityNextEvent {
    pub observation_cardinality_next_old: u16,
    pub observation_cardinality_next_new: u16,
}

/// A decoded event of a pool.
#[derive(Clone, Copy, Debug, PartialEq, Eq, Structural)]
pub enum PoolEvent {
    Initialize(InitializeEvent),
    Swap(SwapEvent),
    Mint(MintEvent),
    Burn(BurnEvent),
    Collect(CollectEvent),
    CollectProtocol(CollectProtocolEvent),
    Flash(FlashEvent),
    SetFeeProtocol(SetFeeProtocolEvent),
    IncreaseObservationCardinalityNext(IncreaseObservationCardinalityNextEvent),
    /// An event of a kind that the pool does not replay.
    Unknown,
}

/// A decoded event with the pool that emitted it and its place in the chain.
#[derive(Clone, Copy, Debug)]
pub struct Log {
    pub address: Address,
    pub block_number: Option<u64>,
    pub log_index: Option<u64>,
    pub block_timestamp: Option<u64>,
    pub event: PoolEvent,
}

/// The pool after its first event: price and tick from the event, the ring
/// of observations started at the event's time, and the pool unlocked.
pub open spec fn initialize_spec(pool: PoolView, event: InitializeEvent, block_timestamp: u64) -> Result<
    PoolView,
    AMMError,
> {
    if event.tick < MIN_TICK || event.tick > MAX_TICK {
        Err(AMMError::ReplayInconsistency)
    } else {
        Ok(
            PoolView {
                slot0: Slot0 {
                    sqrt_price_x96: event.sqrt_price_x96,
                    tick: event.tick,
                    observation_cardinality: 1,
                    observation_cardinality_next: 1,
                    unlocked: true,
                    ..pool.slot0
                },
                observations: save_spec(
                    pool.observations,
                    0,
                    initial_observation(truncate_time(block_timestamp)),
                ),
                ..pool
            },
        )
    }
}

/// How a swap event is replayed: the direction, the specified amount, the
/// input amount that the log reports, and the price limit.
///
/// The token whose amount is not positive is the output. Where no output
/// was paid, the input is the specified amount and the swap runs to the
/// end of the price range; else the output is the specified amount, the
/// logged input is handed along, and the swap runs to the logged price.
pub open spec fn swap_replay_params_spec(event: SwapEvent) -> (bool, I256, Option<I256>, U256) {
    let zero_for_one = event.amount1@ <= 0;
    if zero_for_one {
        if event.amount1@ == 0 {
            (true, event.amount0, None, u256_from_nat(simulation_limit_spec(true)))
        } else {
            (true, event.amount1, Some(event.amount0), event.sqrt_price_x96)
        }
    } else {
        if event.amount0@ == 0 {
            (false, event.amount1, None, u256_from_nat(simulation_limit_spec(false)))
        } else {
            (false, event.amount0, Some(event.amount1), event.sqrt_price_x96)
        }
    }
}

/// The pool after the swap of a swap event, before the event's state is
/// taken over: the swap's amounts must be the event's.
pub open spec fn replayed_swap_spec(pool: PoolView, event: SwapEvent, block_timestamp: u64) -> Result<
    PoolView,
    AMMError,
> {
    let params = swap_replay_params_spec(event);
    if params.1@ == 0 {
        Ok(pool)
    } else {
        match swap_spec(pool, params.0, params.1, params.3, block_timestamp, params.2) {
            Err(e) => Err(e),
            Ok(outcome) => if outcome.amount0 != event.amount0 || outcome.amount1
                != event.amount1 {
                Err(AMMError::ReplayInconsistency)
            } else {
                Ok(outcome.pool)
            },
        }
    }
}

/// The pool after a swap event: the swap is replayed and must agree with
/// the event in its amounts and in the liquidity afterwards, and in the
/// price unless the pool has run out of liquidity; then price and tick are
/// taken from the event.
pub open spec fn swap_event_spec(pool: PoolView, event: SwapEvent, block_timestamp: u64) -> Result<
    PoolView,
    AMMError,
> {
    match replayed_swap_spec(pool, event, block_timestamp) {
        Err(e) => Err(e),
        Ok(after) => if after.liquidity != event.liquidity {
            Err(AMMError::ReplayInconsistency)
        } else if after.slot0.sqrt_price_x96 != event.sqrt_price_x96 && after.liquidity != 0 {
            Err(AMMError::ReplayInconsistency)
        } else if event.tick < MIN_TICK || event.tick > MAX_TICK {
            Err(AMMError::ReplayInconsistency)
        } else {
            Ok(
                PoolView {
                    slot0: Slot0 {
                        sqrt_price_x96: event.sqrt_price_x96,
                        tick: event.tick,
                        ..after.slot0
                    },
                    ..after
                },
            )
        },
    }
}

/// The pool after a mint event: the mint is replayed and must cost what
/// the event reports.
pub open spec fn mint_event_spec(pool: PoolView, event: MintEvent, block_timestamp: u64) -> Result<
    PoolView,
    AMMError,
> {
    match mint_spec(
        pool,
        event.owner,
        event.tick_lower,
        event.tick_upper,
        event.amount,
        block_timestamp,
    ) {
        Err(e) => Err(e),
        Ok(outcome) => if outcome.0 != event.amount0 || outcome.1 != event.amount1 {
            Err(AMMError::ReplayInconsistency)
        } else {
            Ok(outcome.2)
        },
    }
}

/// The pool after a burn event: the burn is replayed and must free what
/// the event reports.
pub open spec fn burn_event_spec(pool: PoolView, event: BurnEvent, block_timestamp: u64) -> Result<
    PoolView,
    AMMError,
> {
    match burn_plan_spec(
        pool,
        event.owner,
        event.tick_lower,
        event.tick_upper,
        event.amount,
        block_timestamp,
    ) {
        Err(e) => Err(e),
        Ok(planned) => if planned.1 != event.amount0 || planned.2 != event.amount1 {
            Err(AMMError::ReplayInconsistency)
        } else {
            Ok(
                modified_pool_spec(
                    pool,
                    ModifyPositionParams {
                        owner: event.owner,
                        tick_lower: event.tick_lower,
                        tick_upper: event.tick_upper,
                        liquidity_delta: (-(event.amount as int)) as i128,
                    },
                    block_timestamp,
                    planned.0,
                ),
            )
        },
    }
}

/// The pool after a collect event: the position must be owed what the
/// event reports as paid.
pub open spec fn collect_event_spec(pool: PoolView, event: CollectEvent) -> Result<
    PoolView,
    AMMError,
> {
    let collected = collect_spec(
        pool,
        event.owner,
        event.tick_lower,
        event.tick_upper,
        event.amount0,
        event.amount1,
    );
    if collected.0 != event.amount0 || collected.1 != event.amount1 {
        Err(AMMError::ReplayInconsistency)
    } else {
        Ok(collected.2)
    }
}

/// The pool after a withdrawal of protocol fees, which must have been accrued.
pub open spec fn collect_protocol_event_spec(pool: PoolView, event: CollectProtocolEvent) -> Result<
    PoolView,
    AMMError,
> {
    if event.amount0 > pool.protocol_fees.token0 || event.amount1 > pool.protocol_fees.token1 {
        Err(AMMError::ReplayInconsistency)
    } else {
        Ok(
            PoolView {
                protocol_fees: ProtocolFees {
                    token0: (pool.protocol_fees.token0 - event.amount0) as u128,
                    token1: (pool.protocol_fees.token1 - event.amount1) as u128,
                },
                ..pool
            },
        )
    }
}

/// The pool after a change of the protocol's fee shares: the share for
/// token 0 in the low four bits, that for token 1 in the high four.
pub open spec fn set_fee_protocol_event_spec(pool: PoolView, event: SetFeeProtocolEvent) -> Result<
    PoolView,
    AMMError,
> {
    if event.fee_protocol_0_new >= 16 || event.fee_protocol_1_new >= 16 {
        Err(AMMError::ArithmeticError(ArithmeticError::Overflow))
    } else {
        Ok(
            PoolView {
                slot0: Slot0 {
                    fee_protocol: (event.fee_protocol_0_new + event.fee_protocol_1_new * 16) as u8,
                    ..pool.slot0
                },
                ..pool
            },
        )
    }
}

/// The pool after its ring of observations was prepared for more slots.
pub open spec fn increase_cardinality_event_spec(
    pool: PoolView,
    event: IncreaseObservationCardinalityNextEvent,
) -> Result<PoolView, AMMError> {
    if event.observation_cardinality_next_old == 0 {
        Err(AMMError::PoolDataError)
    } else {
        Ok(
            PoolView {
                observations: grow_spec(
                    pool.observations,
                    event.observation_cardinality_next_old,
                    event.observation_cardinality_next_new,
                ),
                slot0: Slot0 {
                    observation_cardinality_next: event.observation_cardinality_next_new,
                    ..pool.slot0
                },
                ..pool
            },
        )
    }
}

/// The time of an event's block.
pub open spec fn log_time_spec(log: Log) -> Result<u64, AMMError> {
    match log.block_timestamp {
        Some(time) => Ok(time),
        None => Err(AMMError::EventLogError(EventLogError::LogBlockTimestampNotFound)),
    }
}

/// The pool after the event of a log, whatever its kind.
#[verifier::opaque]
pub open spec fn event_spec(pool: PoolView, log: Log) -> Result<PoolView, AMMError> {
    match log.event {
        PoolEvent::Initialize(event) => match log_time_spec(log) {
            Err(e) => Err(e),
            Ok(time) => initialize_spec(pool, event, time),
        },
        PoolEvent::Swap(event) => match log_time_spec(log) {
            Err(e) => Err(e),
            Ok(time) => swap_event_spec(pool, event, time),
        },
        PoolEvent::Mint(event) => match log_time_spec(log) {
            Err(e) => Err(e),
            Ok(time) => mint_event_spec(pool, event, time),
        },
        PoolEvent::Burn(event) => match log_time_spec(log) {
            Err(e) => Err(e),
            Ok(time) => burn_event_spec(pool, event, time),
        },
        PoolEvent::Collect(event) => collect_event_spec(pool, event),
        PoolEvent::CollectProtocol(event) => collect_protocol_event_spec(pool, event),
        PoolEvent::Flash(event) => flash_spec(pool, event.paid0, event.paid1),
        PoolEvent::SetFeeProtocol(event) => set_fee_protocol_event_spec(pool, event),
        PoolEvent::IncreaseObservationCardinalityNext(event) => increase_cardinality_event_spec(
            pool,
            event,
        ),
        PoolEvent::Unknown => Err(AMMError::EventLogError(EventLogError::InvalidEventSignature)),
    }
}

/// The place of a log in the chain, where the log tells it.
pub open spec fn log_position_spec(log: Log) -> Option<LogPosition> {
    match (log.block_number, log.log_index) {
        (Some(block_number), Some(log_index)) => Some(LogPosition { block_number, log_index }),
        _ => None,
    }
}

/// Whether a log comes in order: strictly after the last log replayed,
/// where both tell their place.
pub open spec fn in_order_spec(pool: PoolView, log: Log) -> bool {
    match (pool.last_log, log_position_spec(log)) {
        (Some(last), Some(now)) => now.is_after(last),
        _ => true,
    }
}

/// The pool after a log has been replayed: a log out of order is refused,
/// the event is applied, and the log's place is remembered.
pub open spec fn sync_from_log_spec(pool: PoolView, log: Log) -> Result<PoolView, AMMError> {
    if !in_order_spec(pool, log) {
        Err(AMMError::OutOfOrderReplay)
    } else {
        match event_spec(pool, log) {
            Err(e) => Err(e),
            Ok(after) => Ok(
                PoolView {
                    last_log: match log_position_spec(log) {
                        Some(now) => Some(now),
                        None => after.last_log,
                    },
                    ..after
                },
            ),
        }
    }
}

/// The time of an event's block; see [`log_time_spec`].
pub fn log_time(log: &Log) -> (r: Result<u64, AMMError>)
    ensures
        r == log_time_spec(*log),
{
    match log.block_timestamp {
        Some(time) => Ok(time),
        None => Err(AMMError::EventLogError(EventLogError::LogBlockTimestampNotFound)),
    }
}

/// How a swap event is replayed; see [`swap_replay_params_spec`].
pub fn swap_replay_params(event: &SwapEvent) -> (r: (bool, I256, Option<I256>, U256))
    ensures
        r == swap_replay_params_spec(*event),
{
    let zero_for_one: bool = !event.amount1.is_positive();
    if zero_for_one {
        if event.amount1.is_zero() {
            (true, event.amount0, None, simulation_limit(true))
        } else {
            (true, event.amount1, Some(event.amount0), event.sqrt_price_x96)
        }
    } else {
        if event.amount0.is_zero() {
            (false, event.amount1, None, simulation_limit(false))
        } else {
            (false, event.amount0, Some(event.amount1), event.sqrt_price_x96)
        }
    }
}

impl UniswapV3Pool {
    /// Replays the first event of the pool; see [`initialize_spec`]. On an
    /// error the pool is unchanged.
    pub fn sync_from_initialize_log(&mut self, event: &InitializeEvent, block_timestamp: u64) -> (r:
        Result<(), AMMError>)
        requires
            old(self).wf(),
        ensures
            final(self).wf(),
            match initialize_spec(old(self)@, *event, block_timestamp) {
                Ok(pool) => r is Ok && final(self)@ == pool,
                Err(e) => r == Err::<(), AMMError>(e) && final(self)@ == old(self)@,
            },
    {
        if event.tick < MIN_TICK || event.tick > MAX_TICK {
            return Err(AMMError::ReplayInconsistency);
        }
        self.slot0.sqrt_price_x96 = event.sqrt_price_x96;
        self.slot0.tick = event.tick;
        let (cardinality, cardinality_next): (u16, u16) = self.observations.initialize(
            (block_timestamp % 0x1_0000_0000u64) as u32,
        );
        self.slot0.observation_cardinality = cardinality;
        self.slot0.observation_cardinality_next = cardinality_next;
        self.slot0.unlocked = true;
        Ok(())
    }

    /// Replays a swap event; see [`swap_event_spec`]. On an error the pool
    /// is unchanged.
    pub fn sync_from_swap_log(&mut self, event: &SwapEvent, block_timestamp: u64) -> (r: Result<
        (),
        AMMError,
    >)
        requires
            old(self).wf(),
        ensures
            final(self).wf(),
            match swap_event_spec(old(self)@, *event, block_timestamp) {
                Ok(pool) => r is Ok && final(self)@ == pool,
                Err(e) => r == Err::<(), AMMError>(e) && final(self)@ == old(self)@,
            },
    {
        let params: (bool, I256, Option<I256>, U256) = swap_replay_params(event);
        if params.1.is_zero() {
            if self.liquidity != event.liquidity {
                return Err(AMMError::ReplayInconsistency);
            }
            if !self.slot0.sqrt_price_x96.equals(event.sqrt_price_x96) && self.liquidity != 0 {
                return Err(AMMError::ReplayInconsistency);
            }
            if event.tick < MIN_TICK || event.tick > MAX_TICK {
                return Err(AMMError::ReplayInconsistency);
            }
        } else {
            let plan: SwapPlan = self.plan_swap(
                params.0,
                params.1,
                params.3,
                block_timestamp,
                params.2,
            )?;
            if plan.state.tick != self.slot0.tick && !self.can_record(block_timestamp) {
                return Err(AMMError::PoolDataError);
            }
            if !plan.amount0.equals(event.amount0) || !plan.amount1.equals(event.amount1) {
                return Err(AMMError::ReplayInconsistency);
            }
            if plan.state.liquidity != event.liquidity {
                return Err(AMMError::ReplayInconsistency);
            }
            if !plan.state.sqrt_price_x_96.equals(event.sqrt_price_x96) && plan.state.liquidity
                != 0 {
                return Err(AMMError::ReplayInconsistency);
            }
            if event.tick < MIN_TICK || event.tick > MAX_TICK {
                return Err(AMMError::ReplayInconsistency);
            }
            self.commit_swap(&plan, params.0, block_timestamp);
        }
        self.slot0.sqrt_price_x96 = event.sqrt_price_x96;
        self.slot0.tick = event.tick;
        Ok(())
    }

    /// Replays a mint event; see [`mint_event_spec`]. On an error the pool
    /// is unchanged.
    pub fn sync_from_mint_log(&mut self, event: &MintEvent, block_timestamp: u64) -> (r: Result<
        (),
        AMMError,
    >)
        requires
            old(self).wf(),
        ensures
            final(self).wf(),
            match mint_event_spec(old(self)@, *event, block_timestamp) {
                Ok(pool) => r is Ok && final(self)@ == pool,
                Err(e) => r == Err::<(), AMMError>(e) && final(self)@ == old(self)@,
            },
    {
        if event.amount == 0 {
            return Err(
                AMMError::LogicError(crate::errors::LogicError::MintAmountZero),
            );
        }
        let delta: i128 = liquidity_delta(event.amount, false)?;
        let params = ModifyPositionParams {
            owner: event.owner,
            tick_lower: event.tick_lower,
            tick_upper: event.tick_upper,
            liquidity_delta: delta,
        };
        let plan: ModifyPlan = self.plan_modify_position(params, block_timestamp)?;
        if !plan.amount0.into_raw().equals(event.amount0) || !plan.amount1.into_raw().equals(
            event.amount1,
        ) {
            return Err(AMMError::ReplayInconsistency);
        }
        self.commit_modify_position(params, block_timestamp, &plan);
        Ok(())
    }

    /// Replays a burn event; see [`burn_event_spec`]. On an error the pool
    /// is unchanged.
    pub fn sync_from_burn_log(&mut self, event: &BurnEvent, block_timestamp: u64) -> (r: Result<
        (),
        AMMError,
    >)
        requires
            old(self).wf(),
        ensures
            final(self).wf(),
            match burn_event_spec(old(self)@, *event, block_timestamp) {
                Ok(pool) => r is Ok && final(self)@ == pool,
                Err(e) => r == Err::<(), AMMError>(e) && final(self)@ == old(self)@,
            },
    {
        let planned: (ModifyPlan, U256, U256) = self.plan_burn(
            event.owner,
            event.tick_lower,
            event.tick_upper,
            event.amount,
            block_timestamp,
        )?;
        if !planned.1.equals(event.amount0) || !planned.2.equals(event.amount1) {
            return Err(AMMError::ReplayInconsistency);
        }
        self.commit_modify_position(
            ModifyPositionParams {
                owner: event.owner,
                tick_lower: event.tick_lower,
                tick_upper: event.tick_upper,
                liquidity_delta: -(event.amount as i128),
            },
            block_timestamp,
            &planned.0,
        );
        Ok(())
    }

    /// Replays a flash event; see [`flash_spec`]. On an error the pool is
    /// unchanged.
    pub fn sync_from_flash_log(&mut self, event: &FlashEvent) -> (r: Result<(), AMMError>)
        ensures
            match flash_spec(old(self)@, event.paid0, event.paid1) {
                Ok(pool) => r is Ok && final(self)@ == pool,
                Err(e) => r == Err::<(), AMMError>(e) && final(self)@ == old(self)@,
            },
    {
        self.flash(event.recipient, event.amount0, event.amount1, event.paid0, event.paid1)
    }

    /// Replays a collect event; see [`collect_event_spec`]. On an error the
    /// pool is unchanged.
    pub fn sync_from_collect_log(&mut self, event: &CollectEvent) -> (r: Result<(), AMMError>)
        ensures
            match collect_event_spec(old(self)@, *event) {
                Ok(pool) => r is Ok && final(self)@ == pool,
                Err(e) => r == Err::<(), AMMError>(e) && final(self)@ == old(self)@,
            },
    {
        let owed = self.positions.get(
            PositionKey {
                owner: event.owner,
                tick_lower: event.tick_lower,
                tick_upper: event.tick_upper,
            },
        );
        if event.amount0 > owed.tokens_owed0 || event.amount1 > owed.tokens_owed1 {
            return Err(AMMError::ReplayInconsistency);
        }
        let _ = self.collect(
            event.owner,
            event.recipient,
            event.tick_lower,
            event.tick_upper,
            event.amount0,
            event.amount1,
        );
        Ok(())
    }

    /// Replays a withdrawal of protocol fees; see
    /// [`collect_protocol_event_spec`]. On an error the pool is unchanged.
    pub fn sync_from_collect_protocol_log(&mut self, event: &CollectProtocolEvent) -> (r: Result<
        (),
        AMMError,
    >)
        ensures
            match collect_protocol_event_spec(old(self)@, *event) {
                Ok(pool) => r is Ok && final(self)@ == pool,
                Err(e) => r == Err::<(), AMMError>(e) && final(self)@ == old(self)@,
            },
    {
        if event.amount0 > self.protocol_fees.token0 || event.amount1 > self.protocol_fees.token1 {
            return Err(AMMError::ReplayInconsistency);
        }
        self.protocol_fees.token0 = self.protocol_fees.token0 - event.amount0;
        self.protocol_fees.token1 = self.protocol_fees.token1 - event.amount1;
        Ok(())
    }

    /// Replays a change of the protocol's fee shares; see
    /// [`set_fee_protocol_event_spec`]. On an error the pool is unchanged.
    pub fn sync_from_set_fee_protocol_log(&mut self, event: &SetFeeProtocolEvent) -> (r: Result<
        (),
        AMMError,
    >)
        ensures
            match set_fee_protocol_event_spec(old(self)@, *event) {
                Ok(pool) => r is Ok && final(self)@ == pool,
                Err(e) => r == Err::<(), AMMError>(e) && final(self)@ == old(self)@,
            },
    {
        if event.fee_protocol_0_new >= 16 || event.fee_protocol_1_new >= 16 {
            return Err(AMMError::ArithmeticError(ArithmeticError::Overflow));
        }
        self.slot0.fee_protocol = event.fee_protocol_0_new + event.fee_protocol_1_new * 16;
        Ok(())
    }

    /// Replays a growth of the ring of observations; see
    /// [`increase_cardinality_event_spec`]. On an error the pool is
    /// unchanged.
    pub fn sync_from_increase_observation_cardinality_next_log(
        &mut self,
        event: &IncreaseObservationCardinalityNextEvent,
    ) -> (r: Result<(), AMMError>)
        ensures
            match increase_cardinality_event_spec(old(self)@, *event) {
                Ok(pool) => r is Ok && final(self)@ == pool,
                Err(e) => r == Err::<(), AMMError>(e) && final(self)@ == old(self)@,
            },
    {
        if event.observation_cardinality_next_old == 0 {
            return Err(AMMError::PoolDataError);
        }
        let _ = self.observations.grow(
            event.observation_cardinality_next_old,
            event.observation_cardinality_next_new,
        );
        self.slot0.observation_cardinality_next = event.observation_cardinality_next_new;
        Ok(())
    }

    /// Applies the event of a log, whatever its kind; see [`event_spec`].
    pub fn apply_event(&mut self, log: &Log) -> (r: Result<(), AMMError>)
        requires
            old(self).wf(),
        ensures
            final(self).wf(),
            match event_spec(old(self)@, *log) {
                Ok(pool) => r is Ok && final(self)@ == pool,
                Err(e) => r == Err::<(), AMMError>(e) && final(self)@ == old(self)@,
            },
    {
        reveal(event_spec);
        match &log.event {
            PoolEvent::Initialize(event) => {
                let time: u64 = log_time(log)?;
                self.sync_from_initialize_log(event, time)
            },
            PoolEvent::Swap(event) => {
                let time: u64 = log_time(log)?;
                self.sync_from_swap_log(event, time)
            },
            PoolEvent::Mint(event) => {
                let time: u64 = log_time(log)?;
                self.sync_from_mint_log(event, time)
            },
            PoolEvent::Burn(event) => {
                let time: u64 = log_time(log)?;
                self.sync_from_burn_log(event, time)
            },
            PoolEvent::Collect(event) => self.sync_from_collect_log(event),
            PoolEvent::CollectProtocol(event) => self.sync_from_collect_protocol_log(event),
            PoolEvent::Flash(event) => self.sync_from_flash_log(event),
            PoolEvent::SetFeeProtocol(event) => self.sync_from_set_fee_protocol_log(event),
            PoolEvent::IncreaseObservationCardinalityNext(event) => {
                self.sync_from_increase_observation_cardinality_next_log(event)
            },
            PoolEvent::Unknown => Err(
                AMMError::EventLogError(EventLogError::InvalidEventSignature),
            ),
        }
    }

    /// Whether a log comes in order; see [`in_order_spec`].
    pub fn is_in_order(&self, log: &Log) -> (r: bool)
        ensures
            r == in_order_spec(self@, *log),
    {
        match (&self.last_log, log.block_number, log.log_index) {
            (Some(last), Some(block_number), Some(log_index)) => {
                let now = LogPosition { block_number, log_index };
                now.comes_after(last)
            },
            _ => true,
        }
    }

    /// Remembers the place of a log that has been replayed.
    fn remember_log(&mut self, log: &Log)
        ensures
            final(self)@ == (PoolView {
                last_log: match log_position_spec(*log) {
                    Some(now) => Some(now),
                    None => old(self)@.last_log,
                },
                ..old(self)@
            }),
    {
        match (log.block_number, log.log_index) {
            (Some(block_number), Some(log_index)) => {
                self.last_log = Some(LogPosition { block_number, log_index });
            },
            _ => {},
        }
    }

    /// Replays one event. Events must come in the order of the chain: by
    /// block, and within a block by their index; see [`sync_from_log_spec`].
    /// On an error the pool is unchanged.
    pub fn sync_from_log(&mut self, log: Log) -> (r: Result<(), AMMError>)
        requires
            old(self).wf(),
        ensures
            final(self).wf(),
            match sync_from_log_spec(old(self)@, log) {
                Ok(pool) => r is Ok && final(self)@ == pool,
                Err(e) => r == Err::<(), AMMError>(e) && final(self)@ == old(self)@,
            },
    {
        if !self.is_in_order(&log) {
            return Err(AMMError::OutOfOrderReplay);
        }
        match self.apply_event(&log) {
            Err(e) => Err(e),
            Ok(_) => {
                self.remember_log(&log);
                Ok(())
            },
        }
    }
}

} // verus!
