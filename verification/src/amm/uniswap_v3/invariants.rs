//! What holds of a pool's ticks and bitmap in every state that the pool's
//! operations reach from a fresh pool.

use vstd::prelude::*;

use crate::amm::uniswap_v3::modify::{
    modified_pool_spec, modify_position_plan_spec, update_accumulators_spec,
    update_position_plan_spec, updated_pool_spec,
};
use crate::amm::uniswap_v3::oracle::{
    lemma_observe_latest_valid, lemma_write_valid, ring_valid, Observation,
};
use crate::amm::uniswap_v3::pool::{ModifyPositionParams, PoolView};
use crate::amm::uniswap_v3::swap::{
    swap_cache_spec, swap_loop_spec, swap_plan_spec, swap_spec, swap_start_spec, ticks_left,
    truncate_time, with_crossing,
};
use crate::amm::uniswap_v3::swap_step::{
    apply_crossings, swap_step_spec, CrossedTick, SwapCache, SwapState,
};
use crate::amm::uniswap_v3::tick::{
    lemma_cross_valid, lemma_update_valid, tick_info, Accumulators, Tick,
};
use crate::amm::uniswap_v3::tick_bitmap::{
    bit_pos_spec, compressed_spec, flip_tick_spec, lemma_compressed_bounds, lemma_flip_tick_bits,
    word_at, word_pos_spec, MAX_INT24, MIN_INT24,
};
use crate::amm::uniswap_v3::tick_math::{MAX_TICK, MIN_TICK};
use crate::primitives::bits::{bit_is_set, lemma_bit_of_zero};
use crate::primitives::u256::lemma_halves;
use crate::primitives::{Address, I256, U256};

verus! {

/// Whether the bitmap marks `tick` as initialized: the tick lies on the
/// spacing grid and its bit is set.
pub open spec fn tick_bit(bitmap: Map<i16, U256>, tick_spacing: int, tick: int) -> bool {
    tick % tick_spacing == 0 && bit_is_set(
        word_at(bitmap, word_pos_spec(compressed_spec(tick, tick_spacing))),
        bit_pos_spec(compressed_spec(tick, tick_spacing)) as nat,
    )
}

/// The bitmap marks exactly the ticks that liquidity references: a tick
/// between `MIN_TICK` and `MAX_TICK` has its bit set if and only if its
/// gross liquidity is not zero.
pub open spec fn bitmap_matches_ticks(pool: PoolView) -> bool {
    forall|tick: i32|
        MIN_TICK <= tick <= MAX_TICK ==> ((#[trigger] tick_info(pool.ticks, tick)).liquidity_gross
            > 0 <==> tick_bit(pool.tick_bitmap, pool.tick_spacing as int, tick as int))
}

/// No tick carries more gross liquidity than the pool's maximum per tick.
pub open spec fn ticks_within_max(pool: PoolView) -> bool {
    forall|tick: i32|
        (#[trigger] tick_info(pool.ticks, tick)).liquidity_gross <= pool.max_liquidity_per_tick
}

/// Every tick record and every observation of the pool has its
/// accumulators within their widths.
pub open spec fn records_valid(pool: PoolView) -> bool {
    &&& forall|tick: i32| (#[trigger] tick_info(pool.ticks, tick)).wf()
    &&& ring_valid(pool.observations)
}

/// A pool without ticks and observations and with an empty bitmap has all
/// three properties.
pub proof fn lemma_fresh_pool(pool: PoolView)
    requires
        pool.ticks == Map::<i32, Tick>::empty(),
        pool.tick_bitmap == Map::<i16, U256>::empty(),
        pool.observations == Seq::<Observation>::empty(),
    ensures
        bitmap_matches_ticks(pool),
        ticks_within_max(pool),
        records_valid(pool),
{
    lemma_halves(U256 { l0: 0, l1: 0, l2: 0, l3: 0 });
    assert forall|tick: i32| MIN_TICK <= tick <= MAX_TICK implies ((#[trigger] tick_info(
        pool.ticks,
        tick,
    )).liquidity_gross > 0 <==> tick_bit(
        pool.tick_bitmap,
        pool.tick_spacing as int,
        tick as int,
    )) by {
        lemma_bit_of_zero(
            bit_pos_spec(compressed_spec(tick as int, pool.tick_spacing as int)) as nat,
        );
    }
}

/// Two compressed ticks of 24 bits with the same word and bit are the same.
pub proof fn lemma_position_injective(first: int, second: int)
    requires
        MIN_INT24 <= first <= MAX_INT24,
        MIN_INT24 <= second <= MAX_INT24,
        word_pos_spec(first) == word_pos_spec(second),
        bit_pos_spec(first) == bit_pos_spec(second),
    ensures
        first == second,
{
    vstd::arithmetic::div_mod::lemma_fundamental_div_mod(first, 256);
    vstd::arithmetic::div_mod::lemma_fundamental_div_mod(second, 256);
    vstd::arithmetic::div_mod::lemma_small_mod((first / 256 + 32768) as nat, 65536);
    vstd::arithmetic::div_mod::lemma_small_mod((second / 256 + 32768) as nat, 65536);
}

/// Flipping a tick on the spacing grid toggles the mark of that tick and
/// of no other tick.
pub proof fn lemma_flip_marks_one_tick(
    bitmap: Map<i16, U256>,
    tick_spacing: int,
    flipped: int,
    tick: int,
)
    requires
        0 < tick_spacing,
        flipped % tick_spacing == 0,
        MIN_INT24 <= flipped <= MAX_INT24,
        MIN_INT24 <= tick <= MAX_INT24,
    ensures
        tick_bit(flip_tick_spec(bitmap, flipped, tick_spacing), tick_spacing, tick) == (if tick
            == flipped {
            !tick_bit(bitmap, tick_spacing, tick)
        } else {
            tick_bit(bitmap, tick_spacing, tick)
        }),
{
    let compressed = compressed_spec(tick, tick_spacing);
    let flipped_compressed = compressed_spec(flipped, tick_spacing);
    lemma_flip_tick_bits(
        bitmap,
        flipped,
        tick_spacing,
        word_pos_spec(compressed),
        bit_pos_spec(compressed) as nat,
    );
    lemma_compressed_bounds(tick, tick_spacing);
    lemma_compressed_bounds(flipped, tick_spacing);
    if tick % tick_spacing == 0 && tick != flipped {
        vstd::arithmetic::div_mod::lemma_fundamental_div_mod(tick, tick_spacing);
        vstd::arithmetic::div_mod::lemma_fundamental_div_mod(flipped, tick_spacing);
        if word_pos_spec(compressed) == word_pos_spec(flipped_compressed) && bit_pos_spec(
            compressed,
        ) == bit_pos_spec(flipped_compressed) {
            lemma_position_injective(compressed, flipped_compressed);
        }
    }
}

/// An update of a position between two ticks of the tick range keeps the
/// bitmap in step with the ticks, and the ticks within the maximum.
pub proof fn lemma_update_position_keeps_invariants(
    pool: PoolView,
    owner: Address,
    tick_lower: i32,
    tick_upper: i32,
    liquidity_delta: i128,
    tick: i32,
    block_timestamp: u64,
)
    requires
        pool.tick_spacing > 0,
        MIN_TICK <= tick_lower < tick_upper <= MAX_TICK,
        bitmap_matches_ticks(pool),
        ticks_within_max(pool),
        update_position_plan_spec(
            pool,
            owner,
            tick_lower,
            tick_upper,
            liquidity_delta,
            tick,
            block_timestamp,
        ) is Ok,
    ensures
        ({
            let update = update_position_plan_spec(
                pool,
                owner,
                tick_lower,
                tick_upper,
                liquidity_delta,
                tick,
                block_timestamp,
            )->Ok_0;
            let after = updated_pool_spec(
                pool,
                owner,
                tick_lower,
                tick_upper,
                liquidity_delta,
                update,
            );
            bitmap_matches_ticks(after) && ticks_within_max(after)
        }),
{
    let update = update_position_plan_spec(
        pool,
        owner,
        tick_lower,
        tick_upper,
        liquidity_delta,
        tick,
        block_timestamp,
    )->Ok_0;
    let after = updated_pool_spec(pool, owner, tick_lower, tick_upper, liquidity_delta, update);
    let spacing = pool.tick_spacing as int;
    let lower_before = tick_info(pool.ticks, tick_lower);
    let upper_before = tick_info(pool.ticks, tick_upper);
    assert(lower_before.liquidity_gross <= pool.max_liquidity_per_tick);
    assert(upper_before.liquidity_gross <= pool.max_liquidity_per_tick);
    assert(lower_before.liquidity_gross > 0 <==> tick_bit(
        pool.tick_bitmap,
        spacing,
        tick_lower as int,
    ));
    assert(upper_before.liquidity_gross > 0 <==> tick_bit(
        pool.tick_bitmap,
        spacing,
        tick_upper as int,
    ));
    let after_lower = if update.flipped_lower {
        flip_tick_spec(pool.tick_bitmap, tick_lower as int, spacing)
    } else {
        pool.tick_bitmap
    };
    assert forall|other: i32| MIN_TICK <= other <= MAX_TICK implies ((#[trigger] tick_info(
        after.ticks,
        other,
    )).liquidity_gross > 0 <==> tick_bit(after.tick_bitmap, spacing, other as int)) by {
        assert(tick_info(pool.ticks, other).liquidity_gross > 0 <==> tick_bit(
            pool.tick_bitmap,
            spacing,
            other as int,
        ));
        if update.flipped_lower {
            lemma_flip_marks_one_tick(pool.tick_bitmap, spacing, tick_lower as int, other as int);
        }
        if update.flipped_upper {
            lemma_flip_marks_one_tick(after_lower, spacing, tick_upper as int, other as int);
        }
    }
    assert forall|other: i32| (#[trigger] tick_info(after.ticks, other)).liquidity_gross
        <= after.max_liquidity_per_tick by {
        assert(tick_info(pool.ticks, other).liquidity_gross <= pool.max_liquidity_per_tick);
    }
}

/// A change of a position's liquidity keeps the bitmap in step with the
/// ticks, and the ticks within the maximum.
pub proof fn lemma_modify_position_keeps_invariants(
    pool: PoolView,
    params: ModifyPositionParams,
    block_timestamp: u64,
)
    requires
        pool.tick_spacing > 0,
        bitmap_matches_ticks(pool),
        ticks_within_max(pool),
        modify_position_plan_spec(pool, params, block_timestamp) is Ok,
    ensures
        ({
            let plan = modify_position_plan_spec(pool, params, block_timestamp)->Ok_0;
            let after = modified_pool_spec(pool, params, block_timestamp, plan);
            bitmap_matches_ticks(after) && ticks_within_max(after)
        }),
{
    let plan = modify_position_plan_spec(pool, params, block_timestamp)->Ok_0;
    lemma_update_position_keeps_invariants(
        pool,
        params.owner,
        params.tick_lower,
        params.tick_upper,
        params.liquidity_delta,
        pool.slot0.tick,
        block_timestamp,
    );
    let updated = updated_pool_spec(
        pool,
        params.owner,
        params.tick_lower,
        params.tick_upper,
        params.liquidity_delta,
        plan.update,
    );
    let after = modified_pool_spec(pool, params, block_timestamp, plan);
    assert(after.ticks == updated.ticks);
    assert(after.tick_bitmap == updated.tick_bitmap);
    assert forall|other: i32| MIN_TICK <= other <= MAX_TICK implies ((#[trigger] tick_info(
        after.ticks,
        other,
    )).liquidity_gross > 0 <==> tick_bit(
        after.tick_bitmap,
        after.tick_spacing as int,
        other as int,
    )) by {
        assert(tick_info(updated.ticks, other).liquidity_gross > 0 <==> tick_bit(
            updated.tick_bitmap,
            updated.tick_spacing as int,
            other as int,
        ));
    }
    assert forall|other: i32| (#[trigger] tick_info(after.ticks, other)).liquidity_gross
        <= after.max_liquidity_per_tick by {
        assert(tick_info(updated.ticks, other).liquidity_gross
            <= updated.max_liquidity_per_tick);
    }
}

/// A change of a position's liquidity keeps every record's accumulators
/// within their widths.
pub proof fn lemma_modify_position_keeps_records(
    pool: PoolView,
    params: ModifyPositionParams,
    block_timestamp: u64,
)
    requires
        records_valid(pool),
        modify_position_plan_spec(pool, params, block_timestamp) is Ok,
    ensures
        records_valid(
            modified_pool_spec(
                pool,
                params,
                block_timestamp,
                modify_position_plan_spec(pool, params, block_timestamp)->Ok_0,
            ),
        ),
{
    let plan = modify_position_plan_spec(pool, params, block_timestamp)->Ok_0;
    let after = modified_pool_spec(pool, params, block_timestamp, plan);
    let acc = update_accumulators_spec(pool, block_timestamp);
    lemma_halves(U256 { l0: 0, l1: 0, l2: 0, l3: 0 });
    lemma_observe_latest_valid(
        pool.observations,
        truncate_time(block_timestamp),
        pool.slot0.tick,
        pool.slot0.observation_index,
        pool.liquidity,
    );
    assert(acc.wf());
    let lower_before = tick_info(pool.ticks, params.tick_lower);
    let upper_before = tick_info(pool.ticks, params.tick_upper);
    assert(lower_before.wf());
    assert(upper_before.wf());
    if params.liquidity_delta != 0 {
        lemma_update_valid(
            lower_before,
            params.tick_lower,
            pool.slot0.tick,
            params.liquidity_delta,
            acc,
            false,
            pool.max_liquidity_per_tick,
        );
        lemma_update_valid(
            upper_before,
            params.tick_upper,
            pool.slot0.tick,
            params.liquidity_delta,
            acc,
            true,
            pool.max_liquidity_per_tick,
        );
    }
    assert(plan.update.lower.wf());
    assert(plan.update.upper.wf());
    assert forall|other: i32| (#[trigger] tick_info(after.ticks, other)).wf() by {
        assert(tick_info(pool.ticks, other).wf());
    }
    if plan.in_range {
        lemma_write_valid(
            pool.observations,
            pool.slot0.observation_index,
            truncate_time(block_timestamp),
            pool.slot0.tick,
            pool.liquidity,
            pool.slot0.observation_cardinality,
            pool.slot0.observation_cardinality_next,
        );
    }
}

/// The crossing of a step holds a record within its widths.
pub proof fn lemma_step_crossing_valid(
    bitmap: Map<i16, U256>,
    ticks: Map<i32, Tick>,
    cache: SwapCache,
    state: SwapState,
)
    requires
        swap_step_spec(bitmap, ticks, cache, state) is Ok,
    ensures
        (swap_step_spec(bitmap, ticks, cache, state)->Ok_0).1 matches Some(crossing)
            ==> crossing.info.wf(),
{
    let next = swap_step_spec(bitmap, ticks, cache, state)->Ok_0;
    match next.1 {
        Some(crossing) => {
            let info = tick_info(ticks, crossing.tick);
            assert forall|acc: Accumulators| (#[trigger] info.cross_spec(acc)).wf() by {
                lemma_cross_valid(info, acc);
            }
        },
        None => {},
    }
}

/// The crossings of a swap hold records within their widths.
pub proof fn lemma_loop_crossings_valid(
    bitmap: Map<i16, U256>,
    ticks: Map<i32, Tick>,
    cache: SwapCache,
    state: SwapState,
    crossed: Seq<CrossedTick>,
)
    requires
        swap_loop_spec(bitmap, ticks, cache, state, crossed) is Ok,
        forall|i: int| 0 <= i < crossed.len() ==> (#[trigger] crossed[i]).info.wf(),
    ensures
        ({
            let all = (swap_loop_spec(bitmap, ticks, cache, state, crossed)->Ok_0).1;
            forall|i: int| 0 <= i < all.len() ==> (#[trigger] all[i]).info.wf()
        }),
    decreases ticks_left(cache.zero_for_one, state.tick),
{
    if !crate::amm::uniswap_v3::swap::swap_finished(cache, state) {
        let now = apply_crossings(ticks, crossed);
        lemma_step_crossing_valid(bitmap, now, cache, state);
        let next = swap_step_spec(bitmap, now, cache, state)->Ok_0;
        let crossed_after = with_crossing(crossed, next.1);
        if !crate::amm::uniswap_v3::swap::swap_finished(cache, next.0) {
            lemma_loop_crossings_valid(bitmap, ticks, cache, next.0, crossed_after);
        }
    }
}

/// Ticks with valid records stay so when valid crossings are applied.
pub proof fn lemma_crossings_keep_records(ticks: Map<i32, Tick>, crossed: Seq<CrossedTick>)
    requires
        forall|tick: i32| (#[trigger] tick_info(ticks, tick)).wf(),
        forall|i: int| 0 <= i < crossed.len() ==> (#[trigger] crossed[i]).info.wf(),
    ensures
        forall|tick: i32| (#[trigger] tick_info(apply_crossings(ticks, crossed), tick)).wf(),
    decreases crossed.len(),
{
    if crossed.len() > 0 {
        lemma_crossings_keep_records(ticks, crossed.drop_last());
        let before = apply_crossings(ticks, crossed.drop_last());
        assert(crossed.last().info.wf());
        assert forall|tick: i32| (#[trigger] tick_info(
            apply_crossings(ticks, crossed),
            tick,
        )).wf() by {
            assert(tick_info(before, tick).wf());
        }
    }
}

/// A swap keeps every record's accumulators within their widths.
pub proof fn lemma_swap_keeps_records(
    pool: PoolView,
    zero_for_one: bool,
    amount_specified: I256,
    sqrt_price_limit_x96: U256,
    block_timestamp: u64,
    amount_in_from_log: Option<I256>,
)
    requires
        records_valid(pool),
        swap_spec(
            pool,
            zero_for_one,
            amount_specified,
            sqrt_price_limit_x96,
            block_timestamp,
            amount_in_from_log,
        ) is Ok,
    ensures
        records_valid(
            (swap_spec(
                pool,
                zero_for_one,
                amount_specified,
                sqrt_price_limit_x96,
                block_timestamp,
                amount_in_from_log,
            )->Ok_0).pool,
        ),
{
    let cache = swap_cache_spec(
        pool,
        zero_for_one,
        amount_specified,
        sqrt_price_limit_x96,
        block_timestamp,
        amount_in_from_log,
    );
    lemma_loop_crossings_valid(
        pool.tick_bitmap,
        pool.ticks,
        cache,
        swap_start_spec(pool, zero_for_one, amount_specified),
        Seq::<CrossedTick>::empty(),
    );
    let plan = swap_plan_spec(
        pool,
        zero_for_one,
        amount_specified,
        sqrt_price_limit_x96,
        block_timestamp,
        amount_in_from_log,
    )->Ok_0;
    lemma_crossings_keep_records(pool.ticks, plan.crossed);
    if plan.state.tick != pool.slot0.tick {
        lemma_write_valid(
            pool.observations,
            pool.slot0.observation_index,
            truncate_time(block_timestamp),
            pool.slot0.tick,
            pool.liquidity,
            pool.slot0.observation_cardinality,
            pool.slot0.observation_cardinality_next,
        );
    }
}

/// Whether two maps of ticks hold the same liquidity at every tick.
pub open spec fn same_liquidity(first: Map<i32, Tick>, second: Map<i32, Tick>) -> bool {
    forall|tick: i32|
        (#[trigger] tick_info(first, tick)).liquidity_gross == tick_info(
            second,
            tick,
        ).liquidity_gross && tick_info(first, tick).liquidity_net == tick_info(
            second,
            tick,
        ).liquidity_net
}

/// The crossing of a step holds the liquidity of the tick that it crosses.
pub proof fn lemma_step_keeps_liquidity_of_ticks(
    bitmap: Map<i16, U256>,
    ticks: Map<i32, Tick>,
    cache: SwapCache,
    state: SwapState,
)
    requires
        swap_step_spec(bitmap, ticks, cache, state) is Ok,
    ensures
        ({
            let next = swap_step_spec(bitmap, ticks, cache, state)->Ok_0;
            next.1 matches Some(crossing) ==> crossing.info.liquidity_gross == tick_info(
                ticks,
                crossing.tick,
            ).liquidity_gross && crossing.info.liquidity_net == tick_info(
                ticks,
                crossing.tick,
            ).liquidity_net
        }),
{
}

/// The crossings of a swap leave the liquidity of every tick as it is.
pub proof fn lemma_loop_keeps_liquidity_of_ticks(
    bitmap: Map<i16, U256>,
    ticks: Map<i32, Tick>,
    cache: SwapCache,
    state: SwapState,
    crossed: Seq<CrossedTick>,
)
    requires
        swap_loop_spec(bitmap, ticks, cache, state, crossed) is Ok,
        same_liquidity(apply_crossings(ticks, crossed), ticks),
    ensures
        same_liquidity(
            apply_crossings(
                ticks,
                (swap_loop_spec(bitmap, ticks, cache, state, crossed)->Ok_0).1,
            ),
            ticks,
        ),
    decreases ticks_left(cache.zero_for_one, state.tick),
{
    if !crate::amm::uniswap_v3::swap::swap_finished(cache, state) {
        let now = apply_crossings(ticks, crossed);
        lemma_step_keeps_liquidity_of_ticks(bitmap, now, cache, state);
        let next = swap_step_spec(bitmap, now, cache, state)->Ok_0;
        let crossed_after = with_crossing(crossed, next.1);
        match next.1 {
            Some(crossing) => {
                assert(crossed.push(crossing).drop_last() =~= crossed);
                assert(apply_crossings(ticks, crossed_after) == now.insert(
                    crossing.tick,
                    crossing.info,
                ));
                assert forall|tick: i32| (#[trigger] tick_info(
                    apply_crossings(ticks, crossed_after),
                    tick,
                )).liquidity_gross == tick_info(ticks, tick).liquidity_gross && tick_info(
                    apply_crossings(ticks, crossed_after),
                    tick,
                ).liquidity_net == tick_info(ticks, tick).liquidity_net by {
                    assert(tick_info(now, tick).liquidity_gross == tick_info(
                        ticks,
                        tick,
                    ).liquidity_gross);
                    assert(tick_info(now, crossing.tick).liquidity_gross == tick_info(
                        ticks,
                        crossing.tick,
                    ).liquidity_gross);
                }
            },
            None => {},
        }
        if !crate::amm::uniswap_v3::swap::swap_finished(cache, next.0) {
            lemma_loop_keeps_liquidity_of_ticks(bitmap, ticks, cache, next.0, crossed_after);
        }
    }
}

/// A swap leaves the liquidity of every tick as it is, and with it the
/// bitmap in step with the ticks and the ticks within the maximum.
pub proof fn lemma_swap_keeps_invariants(
    pool: PoolView,
    zero_for_one: bool,
    amount_specified: I256,
    sqrt_price_limit_x96: U256,
    block_timestamp: u64,
    amount_in_from_log: Option<I256>,
)
    requires
        swap_spec(
            pool,
            zero_for_one,
            amount_specified,
            sqrt_price_limit_x96,
            block_timestamp,
            amount_in_from_log,
        ) is Ok,
    ensures
        ({
            let after = (swap_spec(
                pool,
                zero_for_one,
                amount_specified,
                sqrt_price_limit_x96,
                block_timestamp,
                amount_in_from_log,
            )->Ok_0).pool;
            &&& same_liquidity(after.ticks, pool.ticks)
            &&& after.tick_bitmap == pool.tick_bitmap
            &&& bitmap_matches_ticks(pool) ==> bitmap_matches_ticks(after)
            &&& ticks_within_max(pool) ==> ticks_within_max(after)
        }),
{
    let after = (swap_spec(
        pool,
        zero_for_one,
        amount_specified,
        sqrt_price_limit_x96,
        block_timestamp,
        amount_in_from_log,
    )->Ok_0).pool;
    let cache = swap_cache_spec(
        pool,
        zero_for_one,
        amount_specified,
        sqrt_price_limit_x96,
        block_timestamp,
        amount_in_from_log,
    );
    lemma_loop_keeps_liquidity_of_ticks(
        pool.tick_bitmap,
        pool.ticks,
        cache,
        swap_start_spec(pool, zero_for_one, amount_specified),
        Seq::<CrossedTick>::empty(),
    );
    let plan = swap_plan_spec(
        pool,
        zero_for_one,
        amount_specified,
        sqrt_price_limit_x96,
        block_timestamp,
        amount_in_from_log,
    )->Ok_0;
    assert(after.ticks == apply_crossings(pool.ticks, plan.crossed));
    if bitmap_matches_ticks(pool) {
        assert forall|tick: i32| MIN_TICK <= tick <= MAX_TICK implies ((#[trigger] tick_info(
            after.ticks,
            tick,
        )).liquidity_gross > 0 <==> tick_bit(
            after.tick_bitmap,
            after.tick_spacing as int,
            tick as int,
        )) by {
            assert(tick_info(pool.ticks, tick).liquidity_gross > 0 <==> tick_bit(
                pool.tick_bitmap,
                pool.tick_spacing as int,
                tick as int,
            ));
        }
    }
    if ticks_within_max(pool) {
        assert forall|tick: i32| (#[trigger] tick_info(after.ticks, tick)).liquidity_gross
            <= after.max_liquidity_per_tick by {
            assert(tick_info(pool.ticks, tick).liquidity_gross <= pool.max_liquidity_per_tick);
        }
    }
}

} // verus!
