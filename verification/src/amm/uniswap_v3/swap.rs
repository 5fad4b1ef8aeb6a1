//! The swap: the loop over steps, and the commit of its outcome to the pool.

use vstd::prelude::*;

use crate::amm::uniswap_v3::oracle::{writable_spec, write_spec};
use crate::amm::uniswap_v3::oracle::observe_latest_spec;
use crate::amm::uniswap_v3::pool::{PoolView, ProtocolFees, Slot0, UniswapV3Pool};
use crate::amm::uniswap_v3::swap_step::{
    apply_crossings, swap_step, swap_step_spec, CrossedTick, SwapCache, SwapState,
};
use crate::amm::uniswap_v3::tick::{Tick, Ticks};
use crate::amm::uniswap_v3::tick_bitmap::{TickBitmap, MAX_TICK_SPACING};
use crate::amm::uniswap_v3::tick_math::{
    max_sqrt_ratio, max_sqrt_ratio_spec, min_sqrt_ratio, min_sqrt_ratio_spec, MAX_TICK, MIN_TICK,
};
use crate::errors::{AMMError, ArithmeticError, LogicError, SwapSimulationError};
use crate::primitives::i256::{i256_from_int, lemma_i256_from_int_view};
use crate::primitives::u256::{lemma_from_nat_view, two_pow_128, u256_from_nat};
use crate::primitives::wrapping::{sub_u256, wrapping_sub_u256};
use crate::primitives::{Address, I256, U256};

verus! {

/// How many ticks a swap can still advance in its direction.
pub open spec fn ticks_left(zero_for_one: bool, tick: i32) -> nat {
    if zero_for_one {
        (tick - i32::MIN) as nat
    } else {
        (i32::MAX - tick) as nat
    }
}

/// Whether the swap is over: nothing remains, or the price is at the limit.
pub open spec fn swap_finished(cache: SwapCache, state: SwapState) -> bool {
    state.amount_specified_remaining@ == 0 || state.sqrt_price_x_96 == cache.sqrt_price_limit_x96
}

/// Whether a step has moved the tick in the swap's direction.
pub open spec fn tick_advanced(zero_for_one: bool, before: i32, after: i32) -> bool {
    if zero_for_one {
        after < before
    } else {
        after > before
    }
}

/// The crossings so far, with that of the last step added.
pub open spec fn with_crossing(crossed: Seq<CrossedTick>, crossing: Option<CrossedTick>) -> Seq<
    CrossedTick,
> {
    match crossing {
        Some(c) => crossed.push(c),
        None => crossed,
    }
}

/// The state and the crossings at the end of the swap that continues from
/// `state`.
///
/// The swap steps until nothing remains or the price is at the limit. A
/// step that leaves the swap unfinished must have moved the tick in the
/// swap's direction; the swap fails where it has not.
pub open spec fn swap_loop_spec(
    bitmap: Map<i16, U256>,
    ticks: Map<i32, Tick>,
    cache: SwapCache,
    state: SwapState,
    crossed: Seq<CrossedTick>,
) -> Result<(SwapState, Seq<CrossedTick>), AMMError>
    decreases ticks_left(cache.zero_for_one, state.tick),
{
    if swap_finished(cache, state) {
        Ok((state, crossed))
    } else {
        match swap_step_spec(bitmap, apply_crossings(ticks, crossed), cache, state) {
            Err(e) => Err(e),
            Ok(next) => {
                let crossed_after = with_crossing(crossed, next.1);
                if swap_finished(cache, next.0) {
                    Ok((next.0, crossed_after))
                } else if !tick_advanced(cache.zero_for_one, state.tick, next.0.tick) {
                    Err(AMMError::LogicError(LogicError::NoProgress))
                } else {
                    swap_loop_spec(bitmap, ticks, cache, next.0, crossed_after)
                }
            },
        }
    }
}

/// Whether the swap is over; see [`swap_finished`].
fn is_finished(cache: &SwapCache, state: &SwapState) -> (r: bool)
    ensures
        r == swap_finished(*cache, *state),
{
    state.amount_specified_remaining.is_zero() || state.sqrt_price_x_96.equals(
        cache.sqrt_price_limit_x96,
    )
}

/// Runs the steps of a swap from `start`; see [`swap_loop_spec`].
pub fn run_swap_loop(bitmap: &TickBitmap, ticks: &Ticks, cache: &SwapCache, start: SwapState) -> (r:
    Result<(SwapState, Vec<CrossedTick>), AMMError>)
    requires
        0 < cache.tick_spacing <= MAX_TICK_SPACING,
        MIN_TICK <= start.tick <= MAX_TICK,
    ensures
        match swap_loop_spec(bitmap@, ticks@, *cache, start, Seq::<CrossedTick>::empty()) {
            Ok(end) => r matches Ok(out) && out.0 == end.0 && out.1@ == end.1,
            Err(e) => r matches Err(f) && f == e,
        },
        r matches Ok(out) ==> MIN_TICK <= out.0.tick <= MAX_TICK,
{
    let mut state: SwapState = start;
    let mut crossed: Vec<CrossedTick> = Vec::new();
    loop
        invariant
            0 < cache.tick_spacing <= MAX_TICK_SPACING,
            MIN_TICK <= state.tick <= MAX_TICK,
            swap_loop_spec(bitmap@, ticks@, *cache, start, Seq::<CrossedTick>::empty())
                == swap_loop_spec(bitmap@, ticks@, *cache, state, crossed@),
        decreases ticks_left(cache.zero_for_one, state.tick),
    {
        if is_finished(cache, &state) {
            return Ok((state, crossed));
        }
        let ghost crossed_before = crossed@;
        match swap_step(bitmap, ticks, &crossed, cache, &state) {
            Err(e) => {
                return Err(e);
            },
            Ok(next) => {
                match next.1 {
                    Some(c) => {
                        crossed.push(c);
                    },
                    None => {},
                }
                assert(crossed@ == with_crossing(crossed_before, next.1));
                if is_finished(cache, &next.0) {
                    return Ok((next.0, crossed));
                }
                let advanced: bool = if cache.zero_for_one {
                    next.0.tick < state.tick
                } else {
                    next.0.tick > state.tick
                };
                if !advanced {
                    return Err(AMMError::LogicError(LogicError::NoProgress));
                }
                state = next.0;
            },
        }
    }
}

/// A sum wrapped to 128 bits.
pub open spec fn wrap_u128(x: int) -> u128 {
    (x % (two_pow_128() as int)) as u128
}

/// Adds two 128-bit values, wrapping; see [`wrap_u128`].
pub fn wrapping_add_u128(a: u128, b: u128) -> (r: u128)
    ensures
        r == wrap_u128(a + b),
{
    if a > u128::MAX - b {
        proof {
            vstd::arithmetic::div_mod::lemma_fundamental_div_mod_converse(
                a + b,
                two_pow_128() as int,
                1,
                a + b - two_pow_128(),
            );
        }
        a - (u128::MAX - b) - 1
    } else {
        proof {
            vstd::arithmetic::div_mod::lemma_fundamental_div_mod_converse(
                a + b,
                two_pow_128() as int,
                0,
                a + b,
            );
        }
        a + b
    }
}

/// Stores the records of the crossed ticks, in order.
pub fn commit_crossings(ticks: &mut Ticks, crossed: &Vec<CrossedTick>)
    ensures
        final(ticks)@ == apply_crossings(old(ticks)@, crossed@),
{
    let mut i: usize = 0;
    while i < crossed.len()
        invariant
            i <= crossed@.len(),
            ticks@ == apply_crossings(old(ticks)@, crossed@.take(i as int)),
        decreases crossed@.len() - i,
    {
        let entry: &CrossedTick = &crossed[i];
        ticks.set(entry.tick, entry.info);
        i = i + 1;
        proof {
            assert(crossed@.take(i as int).drop_last() =~= crossed@.take(i - 1));
            assert(crossed@.take(i as int).last() == crossed@[i - 1]);
        }
    }
    assert(crossed@.take(crossed@.len() as int) =~= crossed@);
}

/// The time of a block, truncated to 32 bits.
pub open spec fn truncate_time(block_timestamp: u64) -> u32 {
    (block_timestamp % 0x1_0000_0000) as u32
}

/// Whether the pool can record an observation for the block: its ring
/// counts at least one observation, or the latest slot is from the block's
/// time already, so that nothing is written.
pub open spec fn can_record_spec(pool: PoolView, block_timestamp: u64) -> bool {
    writable_spec(
        pool.observations,
        pool.slot0.observation_index,
        truncate_time(block_timestamp),
        pool.slot0.observation_cardinality,
    )
}

/// The protocol's fee divisor for the input token of a swap: the low four
/// bits of the pool's setting for token 0, the high four for token 1.
pub open spec fn fee_protocol_spec(fee_protocol: u8, zero_for_one: bool) -> u8 {
    if zero_for_one {
        fee_protocol % 16
    } else {
        fee_protocol / 16
    }
}

/// Whether a price limit is admissible: on the side of the current price
/// that the swap moves to, and strictly inside the range of prices.
pub open spec fn price_limit_ok(sqrt_price: U256, limit: U256, zero_for_one: bool) -> bool {
    if zero_for_one {
        limit@ < sqrt_price@ && limit@ > min_sqrt_ratio_spec()
    } else {
        limit@ > sqrt_price@ && limit@ < max_sqrt_ratio_spec()
    }
}

/// What a swap on `pool` reads and never changes.
pub open spec fn swap_cache_spec(
    pool: PoolView,
    zero_for_one: bool,
    amount_specified: I256,
    sqrt_price_limit_x96: U256,
    block_timestamp: u64,
    amount_in_from_log: Option<I256>,
) -> SwapCache {
    let time = truncate_time(block_timestamp);
    let latest = observe_latest_spec(
        pool.observations,
        time,
        pool.slot0.tick,
        pool.slot0.observation_index,
        pool.liquidity,
    );
    SwapCache {
        zero_for_one,
        exact_input: amount_specified@ > 0,
        sqrt_price_limit_x96,
        fee: pool.fee,
        tick_spacing: pool.tick_spacing,
        fee_protocol: fee_protocol_spec(pool.slot0.fee_protocol, zero_for_one),
        liquidity_start: pool.liquidity,
        block_timestamp: time,
        tick_cumulative: latest.0,
        seconds_per_liquidity_cumulative_x128: latest.1,
        fee_growth_global_0_x128: pool.fee_growth_global_0_x128,
        fee_growth_global_1_x128: pool.fee_growth_global_1_x128,
        amount_in_from_log,
        track_fees: true,
    }
}

/// The state in which a swap on `pool` starts.
pub open spec fn swap_start_spec(pool: PoolView, zero_for_one: bool, amount_specified: I256) -> SwapState {
    SwapState {
        amount_specified_remaining: amount_specified,
        amount_calculated: I256 { raw: U256 { l0: 0, l1: 0, l2: 0, l3: 0 } },
        sqrt_price_x_96: pool.slot0.sqrt_price_x96,
        tick: pool.slot0.tick,
        liquidity: pool.liquidity,
        fee_growth_global_x128: if zero_for_one {
            pool.fee_growth_global_0_x128
        } else {
            pool.fee_growth_global_1_x128
        },
        protocol_fee: 0,
    }
}

/// What a swap has worked out before anything is written to the pool.
#[derive(Clone, Debug)]
pub struct SwapPlan {
    /// The state at the end of the loop.
    pub state: SwapState,
    /// The ticks crossed, in order, with their records after the crossing.
    pub crossed: Vec<CrossedTick>,
    /// The change of the pool's balance of token 0.
    pub amount0: I256,
    /// The change of the pool's balance of token 1.
    pub amount1: I256,
}

/// The abstract value of a plan.
pub struct SwapPlanView {
    pub state: SwapState,
    pub crossed: Seq<CrossedTick>,
    pub amount0: I256,
    pub amount1: I256,
}

impl View for SwapPlan {
    type V = SwapPlanView;

    open spec fn view(&self) -> SwapPlanView {
        SwapPlanView {
            state: self.state,
            crossed: self.crossed@,
            amount0: self.amount0,
            amount1: self.amount1,
        }
    }
}

/// What a swap works out: the end of its loop and the two amounts, the
/// specified token's being what was used of the specified amount.
///
/// A zero amount and an inadmissible price limit are refused before
/// anything else.
pub open spec fn swap_plan_spec(
    pool: PoolView,
    zero_for_one: bool,
    amount_specified: I256,
    sqrt_price_limit_x96: U256,
    block_timestamp: u64,
    amount_in_from_log: Option<I256>,
) -> Result<SwapPlanView, AMMError> {
    if amount_specified@ == 0 {
        Err(AMMError::LogicError(LogicError::AmountSpecifiedZero))
    } else if !price_limit_ok(pool.slot0.sqrt_price_x96, sqrt_price_limit_x96, zero_for_one) {
        Err(AMMError::LogicError(LogicError::SqrtPriceLimit))
    } else {
        let cache = swap_cache_spec(
            pool,
            zero_for_one,
            amount_specified,
            sqrt_price_limit_x96,
            block_timestamp,
            amount_in_from_log,
        );
        match swap_loop_spec(
            pool.tick_bitmap,
            pool.ticks,
            cache,
            swap_start_spec(pool, zero_for_one, amount_specified),
            Seq::<CrossedTick>::empty(),
        ) {
            Err(e) => Err(e),
            Ok(end) => {
                let used: int = amount_specified@ - end.0.amount_specified_remaining@;
                if used < I256::min_int() || used > I256::max_int() {
                    Err(AMMError::ArithmeticError(ArithmeticError::Overflow))
                } else {
                    Ok(
                        SwapPlanView {
                            state: end.0,
                            crossed: end.1,
                            amount0: if zero_for_one == cache.exact_input {
                                i256_from_int(used)
                            } else {
                                end.0.amount_calculated
                            },
                            amount1: if zero_for_one == cache.exact_input {
                                end.0.amount_calculated
                            } else {
                                i256_from_int(used)
                            },
                        },
                    )
                }
            },
        }
    }
}

/// The pool after a plan has been committed.
///
/// The price, the liquidity, the fee growth of the input token and the
/// protocol's fees take their values from the end of the loop, and the
/// crossed ticks take their records. Where the tick has changed, one
/// observation is written for the whole swap, with the tick and the
/// liquidity from before the swap.
pub open spec fn committed_pool_spec(
    pool: PoolView,
    plan: SwapPlanView,
    zero_for_one: bool,
    block_timestamp: u64,
) -> PoolView {
    let written = write_spec(
        pool.observations,
        pool.slot0.observation_index,
        truncate_time(block_timestamp),
        pool.slot0.tick,
        pool.liquidity,
        pool.slot0.observation_cardinality,
        pool.slot0.observation_cardinality_next,
    );
    let tick_changed = plan.state.tick != pool.slot0.tick;
    PoolView {
        slot0: if tick_changed {
            Slot0 {
                sqrt_price_x96: plan.state.sqrt_price_x_96,
                tick: plan.state.tick,
                observation_index: written.1,
                observation_cardinality: written.2,
                ..pool.slot0
            }
        } else {
            Slot0 { sqrt_price_x96: plan.state.sqrt_price_x_96, ..pool.slot0 }
        },
        observations: if tick_changed {
            written.0
        } else {
            pool.observations
        },
        liquidity: plan.state.liquidity,
        fee_growth_global_0_x128: if zero_for_one {
            plan.state.fee_growth_global_x128
        } else {
            pool.fee_growth_global_0_x128
        },
        fee_growth_global_1_x128: if zero_for_one {
            pool.fee_growth_global_1_x128
        } else {
            plan.state.fee_growth_global_x128
        },
        protocol_fees: if zero_for_one {
            ProtocolFees {
                token0: wrap_u128(pool.protocol_fees.token0 + plan.state.protocol_fee),
                ..pool.protocol_fees
            }
        } else {
            ProtocolFees {
                token1: wrap_u128(pool.protocol_fees.token1 + plan.state.protocol_fee),
                ..pool.protocol_fees
            }
        },
        ticks: apply_crossings(pool.ticks, plan.crossed),
        ..pool
    }
}

/// The outcome of a swap: the two amounts and the pool afterwards.
pub struct SwapOutcome {
    pub amount0: I256,
    pub amount1: I256,
    pub pool: PoolView,
}

/// The outcome of a swap on `pool`.
///
/// A swap that changes the tick must record an observation for its block;
/// it is refused where the pool cannot, which is where its ring counts no
/// observation and the latest slot is from another time.
pub open spec fn swap_spec(
    pool: PoolView,
    zero_for_one: bool,
    amount_specified: I256,
    sqrt_price_limit_x96: U256,
    block_timestamp: u64,
    amount_in_from_log: Option<I256>,
) -> Result<SwapOutcome, AMMError> {
    match swap_plan_spec(
        pool,
        zero_for_one,
        amount_specified,
        sqrt_price_limit_x96,
        block_timestamp,
        amount_in_from_log,
    ) {
        Err(e) => Err(e),
        Ok(plan) => if plan.state.tick != pool.slot0.tick && !can_record_spec(
            pool,
            block_timestamp,
        ) {
            Err(AMMError::PoolDataError)
        } else {
            Ok(
                SwapOutcome {
                    amount0: plan.amount0,
                    amount1: plan.amount1,
                    pool: committed_pool_spec(pool, plan, zero_for_one, block_timestamp),
                },
            )
        },
    }
}

/// The price limit of a simulated swap: one above the lowest price on the
/// way down, one below the highest on the way up.
pub open spec fn simulation_limit_spec(zero_for_one: bool) -> nat {
    if zero_for_one {
        min_sqrt_ratio_spec() + 1
    } else {
        (max_sqrt_ratio_spec() - 1) as nat
    }
}

/// The amount of the output token that a simulated swap of `amount_in`
/// pays: the negated amount of the output token, as 256 unsigned bits.
pub open spec fn simulated_amount_out_spec(plan: SwapPlanView, zero_for_one: bool) -> U256 {
    if zero_for_one {
        sub_u256(U256 { l0: 0, l1: 0, l2: 0, l3: 0 }, plan.amount1.raw)
    } else {
        sub_u256(U256 { l0: 0, l1: 0, l2: 0, l3: 0 }, plan.amount0.raw)
    }
}

/// What a simulated swap of `amount_in` of `token_in` pays out, without any
/// change to the pool.
pub open spec fn simulate_swap_spec(pool: PoolView, token_in: Address, amount_in: U256) -> Result<
    U256,
    SwapSimulationError,
> {
    let zero_for_one = token_in == pool.token_a;
    match swap_plan_spec(
        pool,
        zero_for_one,
        I256 { raw: amount_in },
        u256_from_nat(simulation_limit_spec(zero_for_one)),
        0,
        None,
    ) {
        Err(e) => Err(SwapSimulationError::Rejected(e)),
        Ok(plan) => Ok(simulated_amount_out_spec(plan, zero_for_one)),
    }
}

/// The net liquidity of a tick as it enters the in-range liquidity when
/// the price crosses the tick: negated on the way down.
pub open spec fn signed_net(zero_for_one: bool, liquidity_net: i128) -> int {
    if zero_for_one {
        -liquidity_net
    } else {
        liquidity_net as int
    }
}

/// The signed sum of the net liquidity of the crossed ticks.
pub open spec fn net_liquidity_crossed(crossed: Seq<CrossedTick>, zero_for_one: bool) -> int
    decreases crossed.len(),
{
    if crossed.len() == 0 {
        0
    } else {
        net_liquidity_crossed(crossed.drop_last(), zero_for_one) + signed_net(
            zero_for_one,
            crossed.last().info.liquidity_net,
        )
    }
}

/// What a step adds to the in-range liquidity.
pub open spec fn crossing_net(crossing: Option<CrossedTick>, zero_for_one: bool) -> int {
    match crossing {
        Some(c) => signed_net(zero_for_one, c.info.liquidity_net),
        None => 0,
    }
}

/// A step changes the in-range liquidity by the signed net liquidity of
/// the tick that it crosses, and not at all where it crosses none.
pub proof fn lemma_step_liquidity(
    bitmap: Map<i16, U256>,
    ticks: Map<i32, Tick>,
    cache: SwapCache,
    state: SwapState,
)
    requires
        swap_step_spec(bitmap, ticks, cache, state) is Ok,
    ensures
        ({
            let next = swap_step_spec(bitmap, ticks, cache, state)->Ok_0;
            next.0.liquidity == state.liquidity + crossing_net(next.1, cache.zero_for_one)
        }),
{
}

/// From any state of the loop on, the in-range liquidity changes by the
/// signed sum of the net liquidity of the ticks crossed from then on.
pub proof fn lemma_loop_liquidity(
    bitmap: Map<i16, U256>,
    ticks: Map<i32, Tick>,
    cache: SwapCache,
    state: SwapState,
    crossed: Seq<CrossedTick>,
)
    requires
        swap_loop_spec(bitmap, ticks, cache, state, crossed) is Ok,
    ensures
        ({
            let end = swap_loop_spec(bitmap, ticks, cache, state, crossed)->Ok_0;
            end.0.liquidity - net_liquidity_crossed(end.1, cache.zero_for_one) == state.liquidity
                - net_liquidity_crossed(crossed, cache.zero_for_one)
        }),
    decreases ticks_left(cache.zero_for_one, state.tick),
{
    if !swap_finished(cache, state) {
        let step = swap_step_spec(bitmap, apply_crossings(ticks, crossed), cache, state);
        lemma_step_liquidity(bitmap, apply_crossings(ticks, crossed), cache, state);
        let next = step->Ok_0;
        let crossed_after = with_crossing(crossed, next.1);
        match next.1 {
            Some(c) => {
                assert(crossed.push(c).drop_last() =~= crossed);
            },
            None => {},
        }
        if !swap_finished(cache, next.0) {
            lemma_loop_liquidity(bitmap, ticks, cache, next.0, crossed_after);
        }
    }
}

/// After a swap, the in-range liquidity is the liquidity from before plus
/// the signed sum of the net liquidity of every tick that the swap has
/// crossed.
pub proof fn lemma_swap_liquidity(
    pool: PoolView,
    zero_for_one: bool,
    amount_specified: I256,
    sqrt_price_limit_x96: U256,
    block_timestamp: u64,
    amount_in_from_log: Option<I256>,
)
    requires
        swap_spec(
            pool,
            zero_for_one,
            amount_specified,
            sqrt_price_limit_x96,
            block_timestamp,
            amount_in_from_log,
        ) is Ok,
    ensures
        ({
            let plan = swap_plan_spec(
                pool,
                zero_for_one,
                amount_specified,
                sqrt_price_limit_x96,
                block_timestamp,
                amount_in_from_log,
            )->Ok_0;
            let outcome = swap_spec(
                pool,
                zero_for_one,
                amount_specified,
                sqrt_price_limit_x96,
                block_timestamp,
                amount_in_from_log,
            )->Ok_0;
            outcome.pool.liquidity == pool.liquidity + net_liquidity_crossed(
                plan.crossed,
                zero_for_one,
            )
        }),
{
    let cache = swap_cache_spec(
        pool,
        zero_for_one,
        amount_specified,
        sqrt_price_limit_x96,
        block_timestamp,
        amount_in_from_log,
    );
    lemma_loop_liquidity(
        pool.tick_bitmap,
        pool.ticks,
        cache,
        swap_start_spec(pool, zero_for_one, amount_specified),
        Seq::<CrossedTick>::empty(),
    );
}

/// Whether the amounts of a state lie on the right side of their start:
/// an exact-input swap has used some, and no more than all, of its input
/// and owes output; an exact-output swap has given some, and no more than
/// all, of its output and is owed input.
pub open spec fn amounts_in_order(cache: SwapCache, amount_specified: I256, state: SwapState) -> bool {
    if cache.exact_input {
        0 <= state.amount_specified_remaining@ <= amount_specified@ && state.amount_calculated@
            <= 0
    } else {
        amount_specified@ <= state.amount_specified_remaining@ <= 0 && state.amount_calculated@
            >= 0
    }
}

/// A step keeps the amounts in order.
pub proof fn lemma_step_amounts(
    bitmap: Map<i16, U256>,
    ticks: Map<i32, Tick>,
    cache: SwapCache,
    amount_specified: I256,
    state: SwapState,
)
    requires
        swap_step_spec(bitmap, ticks, cache, state) is Ok,
        amounts_in_order(cache, amount_specified, state),
    ensures
        amounts_in_order(
            cache,
            amount_specified,
            (swap_step_spec(bitmap, ticks, cache, state)->Ok_0).0,
        ),
{
    let target = crate::amm::uniswap_v3::swap_step::step_target_spec(
        bitmap,
        cache,
        state.tick,
        state.sqrt_price_x_96,
    );
    let step = crate::amm::uniswap_v3::swap_math::checked_swap_step_spec(
        state.sqrt_price_x_96,
        target.sqrt_price_target_x96,
        state.liquidity,
        state.amount_specified_remaining,
        cache.fee,
    )->Ok_0;
    let paid = step.amount_in@ + step.fee_amount@;
    let received = step.amount_out@;
    let remaining_after: int = if cache.exact_input {
        state.amount_specified_remaining@ - paid
    } else {
        state.amount_specified_remaining@ + received
    };
    let calculated_after: int = if cache.exact_input {
        state.amount_calculated@ - received
    } else {
        state.amount_calculated@ + paid
    };
    crate::primitives::i256::lemma_i256_from_int(remaining_after);
    crate::primitives::i256::lemma_i256_from_int(calculated_after);
}

/// The loop keeps the amounts in order.
pub proof fn lemma_loop_amounts(
    bitmap: Map<i16, U256>,
    ticks: Map<i32, Tick>,
    cache: SwapCache,
    amount_specified: I256,
    state: SwapState,
    crossed: Seq<CrossedTick>,
)
    requires
        swap_loop_spec(bitmap, ticks, cache, state, crossed) is Ok,
        amounts_in_order(cache, amount_specified, state),
    ensures
        amounts_in_order(
            cache,
            amount_specified,
            (swap_loop_spec(bitmap, ticks, cache, state, crossed)->Ok_0).0,
        ),
    decreases ticks_left(cache.zero_for_one, state.tick),
{
    if !swap_finished(cache, state) {
        let now = apply_crossings(ticks, crossed);
        lemma_step_amounts(bitmap, now, cache, amount_specified, state);
        let next = swap_step_spec(bitmap, now, cache, state)->Ok_0;
        if !swap_finished(cache, next.0) {
            lemma_loop_amounts(
                bitmap,
                ticks,
                cache,
                amount_specified,
                next.0,
                with_crossing(crossed, next.1),
            );
        }
    }
}

/// The amounts of a swap have the signs of its direction: the pool takes
/// the input token (an amount that is not negative) and gives the output
/// token (an amount that is not positive). An exact-input swap takes at
/// most the amount specified, and an exact-output swap gives at most the
/// amount specified.
pub proof fn lemma_swap_signs(
    pool: PoolView,
    zero_for_one: bool,
    amount_specified: I256,
    sqrt_price_limit_x96: U256,
    block_timestamp: u64,
    amount_in_from_log: Option<I256>,
)
    requires
        swap_spec(
            pool,
            zero_for_one,
            amount_specified,
            sqrt_price_limit_x96,
            block_timestamp,
            amount_in_from_log,
        ) is Ok,
    ensures
        ({
            let outcome = swap_spec(
                pool,
                zero_for_one,
                amount_specified,
                sqrt_price_limit_x96,
                block_timestamp,
                amount_in_from_log,
            )->Ok_0;
            let amount_in = if zero_for_one {
                outcome.amount0@
            } else {
                outcome.amount1@
            };
            let amount_out = if zero_for_one {
                outcome.amount1@
            } else {
                outcome.amount0@
            };
            &&& amount_in >= 0 && amount_out <= 0
            &&& amount_specified@ > 0 ==> amount_in <= amount_specified@
            &&& amount_specified@ < 0 ==> amount_out >= amount_specified@
        }),
{
    let cache = swap_cache_spec(
        pool,
        zero_for_one,
        amount_specified,
        sqrt_price_limit_x96,
        block_timestamp,
        amount_in_from_log,
    );
    let start = swap_start_spec(pool, zero_for_one, amount_specified);
    crate::primitives::u256::lemma_halves(U256 { l0: 0, l1: 0, l2: 0, l3: 0 });
    assert(start.amount_calculated@ == 0);
    lemma_loop_amounts(
        pool.tick_bitmap,
        pool.ticks,
        cache,
        amount_specified,
        start,
        Seq::<CrossedTick>::empty(),
    );
    let end = swap_loop_spec(
        pool.tick_bitmap,
        pool.ticks,
        cache,
        start,
        Seq::<CrossedTick>::empty(),
    )->Ok_0;
    crate::primitives::i256::lemma_i256_from_int(
        amount_specified@ - end.0.amount_specified_remaining@,
    );
}

/// A swap of a zero amount is refused and leaves the pool as it is,
/// however often it is tried.
pub proof fn lemma_zero_swap_refused(
    pool: PoolView,
    zero_for_one: bool,
    amount_specified: I256,
    sqrt_price_limit_x96: U256,
    block_timestamp: u64,
    amount_in_from_log: Option<I256>,
)
    requires
        amount_specified@ == 0,
    ensures
        swap_spec(
            pool,
            zero_for_one,
            amount_specified,
            sqrt_price_limit_x96,
            block_timestamp,
            amount_in_from_log,
        ) == Err::<SwapOutcome, AMMError>(
            AMMError::LogicError(LogicError::AmountSpecifiedZero),
        ),
{
}

/// The price limit of a simulated swap; see [`simulation_limit_spec`].
pub fn simulation_limit(zero_for_one: bool) -> (r: U256)
    ensures
        r == u256_from_nat(simulation_limit_spec(zero_for_one)),
{
    broadcast use lemma_from_nat_view;

    if zero_for_one {
        match min_sqrt_ratio().checked_add(U256::one()) {
            Some(limit) => limit,
            None => {
                assert(false);
                U256::zero()
            },
        }
    } else {
        match max_sqrt_ratio().checked_sub(U256::one()) {
            Some(limit) => limit,
            None => {
                assert(false);
                U256::zero()
            },
        }
    }
}

impl UniswapV3Pool {
    /// What a swap reads and never changes; see [`swap_cache_spec`].
    pub fn swap_cache(
        &self,
        zero_for_one: bool,
        amount_specified: I256,
        sqrt_price_limit_x96: U256,
        block_timestamp: u64,
        amount_in_from_log: Option<I256>,
    ) -> (r: SwapCache)
        ensures
            r == swap_cache_spec(
                self@,
                zero_for_one,
                amount_specified,
                sqrt_price_limit_x96,
                block_timestamp,
                amount_in_from_log,
            ),
    {
        let time: u32 = (block_timestamp % 0x1_0000_0000u64) as u32;
        let latest: (i64, U256) = self.observations.observe_latest(
            time,
            self.slot0.tick,
            self.slot0.observation_index,
            self.liquidity,
        );
        SwapCache {
            zero_for_one,
            exact_input: amount_specified.is_positive(),
            sqrt_price_limit_x96,
            fee: self.fee,
            tick_spacing: self.tick_spacing,
            fee_protocol: if zero_for_one {
                self.slot0.fee_protocol % 16
            } else {
                self.slot0.fee_protocol / 16
            },
            liquidity_start: self.liquidity,
            block_timestamp: time,
            tick_cumulative: latest.0,
            seconds_per_liquidity_cumulative_x128: latest.1,
            fee_growth_global_0_x128: self.fee_growth_global_0_x128,
            fee_growth_global_1_x128: self.fee_growth_global_1_x128,
            amount_in_from_log,
            track_fees: true,
        }
    }

    /// Works out a swap without writing to the pool; see [`swap_plan_spec`].
    pub fn plan_swap(
        &self,
        zero_for_one: bool,
        amount_specified: I256,
        sqrt_price_limit_x96: U256,
        block_timestamp: u64,
        amount_in_from_log: Option<I256>,
    ) -> (r: Result<SwapPlan, AMMError>)
        requires
            self.wf(),
        ensures
            match swap_plan_spec(
                self@,
                zero_for_one,
                amount_specified,
                sqrt_price_limit_x96,
                block_timestamp,
                amount_in_from_log,
            ) {
                Ok(plan) => r matches Ok(out) && out@ == plan,
                Err(e) => r matches Err(f) && f == e,
            },
            r matches Ok(out) ==> MIN_TICK <= out.state.tick <= MAX_TICK,
    {
        broadcast use lemma_i256_from_int_view;

        if amount_specified.is_zero() {
            return Err(AMMError::LogicError(LogicError::AmountSpecifiedZero));
        }
        let limit_ok: bool = if zero_for_one {
            sqrt_price_limit_x96.lt(self.slot0.sqrt_price_x96) && sqrt_price_limit_x96.gt(
                min_sqrt_ratio(),
            )
        } else {
            sqrt_price_limit_x96.gt(self.slot0.sqrt_price_x96) && sqrt_price_limit_x96.lt(
                max_sqrt_ratio(),
            )
        };
        if !limit_ok {
            return Err(AMMError::LogicError(LogicError::SqrtPriceLimit));
        }
        let cache: SwapCache = self.swap_cache(
            zero_for_one,
            amount_specified,
            sqrt_price_limit_x96,
            block_timestamp,
            amount_in_from_log,
        );
        let start = SwapState {
            amount_specified_remaining: amount_specified,
            amount_calculated: I256 { raw: U256 { l0: 0, l1: 0, l2: 0, l3: 0 } },
            sqrt_price_x_96: self.slot0.sqrt_price_x96,
            tick: self.slot0.tick,
            liquidity: self.liquidity,
            fee_growth_global_x128: if zero_for_one {
                self.fee_growth_global_0_x128
            } else {
                self.fee_growth_global_1_x128
            },
            protocol_fee: 0,
        };
        let (state, crossed): (SwapState, Vec<CrossedTick>) = run_swap_loop(
            &self.tick_bitmap,
            &self.ticks,
            &cache,
            start,
        )?;
        let used: I256 = match amount_specified.checked_sub(state.amount_specified_remaining) {
            Some(u) => u,
            None => {
                return Err(AMMError::ArithmeticError(ArithmeticError::Overflow));
            },
        };
        let (amount0, amount1): (I256, I256) = if zero_for_one == cache.exact_input {
            (used, state.amount_calculated)
        } else {
            (state.amount_calculated, used)
        };
        Ok(SwapPlan { state, crossed, amount0, amount1 })
    }

    /// Whether the pool can record an observation for the block; see
    /// [`can_record_spec`].
    pub fn can_record(&self, block_timestamp: u64) -> (r: bool)
        ensures
            r == can_record_spec(self@, block_timestamp),
    {
        self.observations.writable(
            self.slot0.observation_index,
            (block_timestamp % 0x1_0000_0000u64) as u32,
            self.slot0.observation_cardinality,
        )
    }

    /// Writes the outcome of a planned swap to the pool; see
    /// [`committed_pool_spec`].
    pub fn commit_swap(&mut self, plan: &SwapPlan, zero_for_one: bool, block_timestamp: u64)
        requires
            old(self).wf(),
            MIN_TICK <= plan.state.tick <= MAX_TICK,
            plan.state.tick != old(self).slot0.tick ==> can_record_spec(
                old(self)@,
                block_timestamp,
            ),
        ensures
            final(self).wf(),
            final(self)@ == committed_pool_spec(old(self)@, plan@, zero_for_one, block_timestamp),
    {
        let state: SwapState = plan.state;
        if state.tick != self.slot0.tick {
            let (observation_index, observation_cardinality): (u16, u16) = self.observations.write(
                self.slot0.observation_index,
                (block_timestamp % 0x1_0000_0000u64) as u32,
                self.slot0.tick,
                self.liquidity,
                self.slot0.observation_cardinality,
                self.slot0.observation_cardinality_next,
            );
            self.slot0.sqrt_price_x96 = state.sqrt_price_x_96;
            self.slot0.tick = state.tick;
            self.slot0.observation_index = observation_index;
            self.slot0.observation_cardinality = observation_cardinality;
        } else {
            self.slot0.sqrt_price_x96 = state.sqrt_price_x_96;
        }
        self.liquidity = state.liquidity;
        if zero_for_one {
            self.fee_growth_global_0_x128 = state.fee_growth_global_x128;
            self.protocol_fees.token0 = wrapping_add_u128(
                self.protocol_fees.token0,
                state.protocol_fee,
            );
        } else {
            self.fee_growth_global_1_x128 = state.fee_growth_global_x128;
            self.protocol_fees.token1 = wrapping_add_u128(
                self.protocol_fees.token1,
                state.protocol_fee,
            );
        }
        commit_crossings(&mut self.ticks, &plan.crossed);
    }

    /// Swaps token 0 for token 1, or token 1 for token 0.
    ///
    /// A positive `amount_specified` is the exact input, a negative one the
    /// exact output. The swap moves the price towards `sqrt_price_limit_x_96`
    /// step by step, crossing initialized ticks, until the amount is used up
    /// or the limit is reached; see [`swap_spec`]. It returns the changes of
    /// the pool's balances of the two tokens. On an error the pool is
    /// unchanged.
    pub fn swap(
        &mut self,
        _recipient: Address,
        zero_for_one: bool,
        amount_specified: I256,
        sqrt_price_limit_x_96: U256,
        block_timestamp: u64,
        amount_in_from_log: Option<I256>,
    ) -> (r: Result<(I256, I256), AMMError>)
        requires
            old(self).wf(),
        ensures
            final(self).wf(),
            match swap_spec(
                old(self)@,
                zero_for_one,
                amount_specified,
                sqrt_price_limit_x_96,
                block_timestamp,
                amount_in_from_log,
            ) {
                Ok(outcome) => r == Ok::<(I256, I256), AMMError>(
                    (outcome.amount0, outcome.amount1),
                ) && final(self)@ == outcome.pool,
                Err(e) => r == Err::<(I256, I256), AMMError>(e) && final(self)@ == old(self)@,
            },
    {
        let plan: SwapPlan = match self.plan_swap(
            zero_for_one,
            amount_specified,
            sqrt_price_limit_x_96,
            block_timestamp,
            amount_in_from_log,
        ) {
            Ok(plan) => plan,
            Err(e) => {
                return Err(e);
            },
        };
        if plan.state.tick != self.slot0.tick && !self.can_record(block_timestamp) {
            return Err(AMMError::PoolDataError);
        }
        self.commit_swap(&plan, zero_for_one, block_timestamp);
        Ok((plan.amount0, plan.amount1))
    }

    /// The amount of the other token that a swap of `amount_in` of
    /// `token_in` pays out; the pool is not changed.
    pub fn simulate_swap(&self, token_in: Address, amount_in: U256) -> (r: Result<
        U256,
        SwapSimulationError,
    >)
        requires
            self.wf(),
        ensures
            r == simulate_swap_spec(self@, token_in, amount_in),
    {
        let zero_for_one: bool = token_in == self.token_a;
        match self.plan_swap(
            zero_for_one,
            I256::from_raw(amount_in),
            simulation_limit(zero_for_one),
            0,
            None,
        ) {
            Err(e) => Err(SwapSimulationError::Rejected(e)),
            Ok(plan) => {
                if zero_for_one {
                    Ok(wrapping_sub_u256(U256 { l0: 0, l1: 0, l2: 0, l3: 0 }, plan.amount1.raw))
                } else {
                    Ok(wrapping_sub_u256(U256 { l0: 0, l1: 0, l2: 0, l3: 0 }, plan.amount0.raw))
                }
            },
        }
    }

    /// Swaps `amount_in` of `token_in` and returns the amount of the other
    /// token that the swap pays out. On an error the pool is unchanged.
    pub fn simulate_swap_mut(&mut self, token_in: Address, amount_in: U256) -> (r: Result<
        U256,
        SwapSimulationError,
    >)
        requires
            old(self).wf(),
        ensures
            final(self).wf(),
            match swap_spec(
                old(self)@,
                token_in == old(self).token_a,
                I256 { raw: amount_in },
                u256_from_nat(simulation_limit_spec(token_in == old(self).token_a)),
                0,
                None,
            ) {
                Ok(outcome) => r == Ok::<U256, SwapSimulationError>(
                    if token_in == old(self).token_a {
                        sub_u256(U256 { l0: 0, l1: 0, l2: 0, l3: 0 }, outcome.amount1.raw)
                    } else {
                        sub_u256(U256 { l0: 0, l1: 0, l2: 0, l3: 0 }, outcome.amount0.raw)
                    },
                ) && final(self)@ == outcome.pool,
                Err(e) => r == Err::<U256, SwapSimulationError>(SwapSimulationError::Rejected(e))
                    && final(self)@ == old(self)@,
            },
    {
        let zero_for_one: bool = token_in == self.token_a;
        match self.swap(
            Address { high: 0, low: 0 },
            zero_for_one,
            I256::from_raw(amount_in),
            simulation_limit(zero_for_one),
            0,
            None,
        ) {
            Err(e) => Err(SwapSimulationError::Rejected(e)),
            Ok(amounts) => {
                if zero_for_one {
                    Ok(wrapping_sub_u256(U256 { l0: 0, l1: 0, l2: 0, l3: 0 }, amounts.1.raw))
                } else {
                    Ok(wrapping_sub_u256(U256 { l0: 0, l1: 0, l2: 0, l3: 0 }, amounts.0.raw))
                }
            },
        }
    }
}

} // verus!
