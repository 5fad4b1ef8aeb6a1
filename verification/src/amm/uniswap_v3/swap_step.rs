//! The parts of one step of the swap loop.

use vstd::prelude::*;

use crate::amm::uniswap_v3::liquidity_math::{add_delta, add_delta_spec};
use crate::amm::uniswap_v3::swap_math::{checked_swap_step_spec, compute_swap_step, SwapStep};
use crate::amm::uniswap_v3::tick::{tick_info, Accumulators, Tick, Ticks};
use crate::amm::uniswap_v3::tick_bitmap::{
    next_initialized_tick_spec, TickBitmap, MAX_TICK_SPACING,
};
use crate::amm::uniswap_v3::tick_math::{
    sqrt_price_at_tick, sqrt_price_at_tick_spec, tick_at_sqrt_price, tick_at_sqrt_price_spec,
    MAX_TICK, MIN_TICK,
};
use crate::errors::{AMMError, ArithmeticError};
use crate::primitives::full_math::{mul_div, mul_div_spec};
use crate::primitives::i256::{i256_from_int, lemma_i256_from_int_view};
use crate::primitives::u256::{
    lemma_from_nat_view, lemma_halves, lemma_two_pows, two_pow_128, u256_from_nat,
};
use crate::primitives::wrapping::{add_u256, wrapping_add_u256};
use crate::primitives::{I256, U256};

verus! {

/// What a swap reads and never changes while it runs.
#[derive(Clone, Copy, Debug)]
pub struct SwapCache {
    /// Whether token 0 is swapped for token 1, which moves the price down.
    pub zero_for_one: bool,
    /// Whether the specified amount is the input of the swap.
    pub exact_input: bool,
    /// The price at which the swap stops.
    pub sqrt_price_limit_x96: U256,
    /// The pool's fee, in hundredths of a basis point.
    pub fee: u32,
    /// The pool's tick spacing.
    pub tick_spacing: i32,
    /// The protocol's share of the fee for the input token, as a divisor; 0 for none.
    pub fee_protocol: u8,
    /// The in-range liquidity at the start of the swap.
    pub liquidity_start: u128,
    /// The time of the swap, truncated to 32 bits.
    pub block_timestamp: u32,
    /// The tick accumulator as of the swap's time.
    pub tick_cumulative: i64,
    /// The seconds-per-liquidity accumulator as of the swap's time.
    pub seconds_per_liquidity_cumulative_x128: U256,
    /// The fee growth of token 0 at the start of the swap.
    pub fee_growth_global_0_x128: U256,
    /// The fee growth of token 1 at the start of the swap.
    pub fee_growth_global_1_x128: U256,
    /// The input amount that an event log reports for an exact-output swap.
    pub amount_in_from_log: Option<I256>,
    /// Whether the swap keeps the books of the protocol's fee and of the
    /// fee growth; a quote that is thrown away does not.
    pub track_fees: bool,
}

/// What a swap changes from step to step.
#[derive(Clone, Copy, Debug, PartialEq, Eq, Structural)]
pub struct SwapState {
    /// The part of the specified amount that is still to be swapped.
    pub amount_specified_remaining: I256,
    /// The amount of the other token accumulated so far.
    pub amount_calculated: I256,
    /// The current price.
    pub sqrt_price_x_96: U256,
    /// The tick of the current price.
    pub tick: i32,
    /// The fee growth of the input token.
    pub fee_growth_global_x128: U256,
    /// The protocol's fee accumulated so far.
    pub protocol_fee: u128,
    /// The in-range liquidity.
    pub liquidity: u128,
}

/// Where one step of the swap aims.
#[derive(Clone, Copy, Debug, PartialEq, Eq, Structural)]
pub struct StepComputations {
    /// The price at the start of the step.
    pub sqrt_price_start_x_96: U256,
    /// The next tick in the swap's direction, clamped to the tick range.
    pub tick_next: i32,
    /// Whether `tick_next` came from an initialized tick.
    pub initialized: bool,
    /// The price at `tick_next`.
    pub sqrt_price_next_x96: U256,
    /// The price that the step moves towards: that of `tick_next`, capped by the limit.
    pub sqrt_price_target_x96: U256,
}

/// A tick that a swap has crossed, with its record after the crossing.
#[derive(Clone, Copy, Debug, PartialEq, Eq, Structural)]
pub struct CrossedTick {
    pub tick: i32,
    pub info: Tick,
}

/// A tick clamped to the range between `MIN_TICK` and `MAX_TICK`.
pub open spec fn clamp_tick_spec(tick: int) -> i32 {
    if tick < MIN_TICK {
        MIN_TICK
    } else if tick > MAX_TICK {
        MAX_TICK
    } else {
        tick as i32
    }
}

/// Where a step from `tick` at `sqrt_price` aims: the next initialized tick
/// within one word, clamped, and its price capped by the limit.
pub open spec fn step_target_spec(
    bitmap: Map<i16, U256>,
    cache: SwapCache,
    tick: i32,
    sqrt_price: U256,
) -> StepComputations {
    let found = next_initialized_tick_spec(
        bitmap,
        tick as int,
        cache.tick_spacing as int,
        cache.zero_for_one,
    );
    let tick_next = clamp_tick_spec(found.0);
    let price_next = u256_from_nat(sqrt_price_at_tick_spec(tick_next as int));
    let beyond_limit = if cache.zero_for_one {
        price_next@ < cache.sqrt_price_limit_x96@
    } else {
        price_next@ > cache.sqrt_price_limit_x96@
    };
    StepComputations {
        sqrt_price_start_x_96: sqrt_price,
        tick_next,
        initialized: found.1,
        sqrt_price_next_x96: price_next,
        sqrt_price_target_x96: if beyond_limit {
            cache.sqrt_price_limit_x96
        } else {
            price_next
        },
    }
}

/// Finds where a step aims; see [`step_target_spec`].
pub fn step_target(bitmap: &TickBitmap, cache: &SwapCache, tick: i32, sqrt_price: U256) -> (r:
    StepComputations)
    requires
        0 < cache.tick_spacing <= MAX_TICK_SPACING,
        MIN_TICK <= tick <= MAX_TICK,
    ensures
        r == step_target_spec(bitmap@, *cache, tick, sqrt_price),
        MIN_TICK <= r.tick_next <= MAX_TICK,
        cache.zero_for_one ==> r.tick_next <= tick,
        !cache.zero_for_one ==> r.tick_next > tick || r.tick_next == MAX_TICK,
{
    broadcast use lemma_from_nat_view;

    let (found, initialized): (i32, bool) = bitmap.next_initialized_tick_within_one_word(
        tick,
        cache.tick_spacing,
        cache.zero_for_one,
    );
    let tick_next: i32 = if found < MIN_TICK {
        MIN_TICK
    } else if found > MAX_TICK {
        MAX_TICK
    } else {
        found
    };
    let price_next: U256 = sqrt_price_at_tick(tick_next);
    let beyond_limit: bool = if cache.zero_for_one {
        price_next.lt(cache.sqrt_price_limit_x96)
    } else {
        price_next.gt(cache.sqrt_price_limit_x96)
    };
    StepComputations {
        sqrt_price_start_x_96: sqrt_price,
        tick_next,
        initialized,
        sqrt_price_next_x96: price_next,
        sqrt_price_target_x96: if beyond_limit {
            cache.sqrt_price_limit_x96
        } else {
            price_next
        },
    }
}

/// The remaining and the calculated amount after a step: an exact-input
/// swap pays the step's input and fee out of the remaining amount and takes
/// its output off the calculated one; an exact-output swap adds the step's
/// output to the remaining amount and its input and fee to the calculated
/// one. A step that takes more than remains of an exact input, or gives
/// more than remains of an exact output, is refused.
pub open spec fn settle_amounts_spec(
    remaining: I256,
    calculated: I256,
    exact_input: bool,
    step: SwapStep,
) -> Result<(I256, I256), AMMError> {
    let paid = step.amount_in@ + step.fee_amount@;
    let received = step.amount_out@;
    if paid > I256::max_int() || received > I256::max_int() {
        Err(AMMError::ArithmeticError(ArithmeticError::I256ConversionError))
    } else {
        let remaining_after: int = if exact_input {
            remaining@ - paid
        } else {
            remaining@ + received
        };
        let calculated_after: int = if exact_input {
            calculated@ - received
        } else {
            calculated@ + paid
        };
        if remaining_after < I256::min_int() || remaining_after > I256::max_int()
            || calculated_after < I256::min_int() || calculated_after > I256::max_int() {
            Err(AMMError::ArithmeticError(ArithmeticError::Overflow))
        } else if (exact_input && remaining_after < 0) || (!exact_input && remaining_after > 0) {
            Err(AMMError::ArithmeticError(ArithmeticError::SwapStepError))
        } else {
            Ok((i256_from_int(remaining_after), i256_from_int(calculated_after)))
        }
    }
}

/// Books a step's amounts; see [`settle_amounts_spec`].
pub fn settle_amounts(remaining: I256, calculated: I256, exact_input: bool, step: SwapStep) -> (r:
    Result<(I256, I256), AMMError>)
    ensures
        r == settle_amounts_spec(remaining, calculated, exact_input, step),
{
    broadcast use lemma_i256_from_int_view;

    proof {
        remaining.lemma_range();
        calculated.lemma_range();
        lemma_halves(step.amount_in);
        lemma_halves(step.fee_amount);
        lemma_halves(step.amount_out);
    }
    let paid: I256 = match step.amount_in.checked_add(step.fee_amount) {
        None => {
            return Err(AMMError::ArithmeticError(ArithmeticError::I256ConversionError));
        },
        Some(sum) => match I256::try_from_u256(sum) {
            None => {
                return Err(AMMError::ArithmeticError(ArithmeticError::I256ConversionError));
            },
            Some(p) => p,
        },
    };
    let received: I256 = match I256::try_from_u256(step.amount_out) {
        None => {
            return Err(AMMError::ArithmeticError(ArithmeticError::I256ConversionError));
        },
        Some(o) => o,
    };
    let remaining_after: Option<I256> = if exact_input {
        remaining.checked_sub(paid)
    } else {
        remaining.checked_add(received)
    };
    let calculated_after: Option<I256> = if exact_input {
        calculated.checked_sub(received)
    } else {
        calculated.checked_add(paid)
    };
    match (remaining_after, calculated_after) {
        (Some(r), Some(c)) => {
            if (exact_input && r.is_negative()) || (!exact_input && r.is_positive()) {
                return Err(AMMError::ArithmeticError(ArithmeticError::SwapStepError));
            }
            Ok((r, c))
        },
        _ => Err(AMMError::ArithmeticError(ArithmeticError::Overflow)),
    }
}

/// The calculated amount and the step's fee after the input amount of an
/// event log, if one was given, has been taken into account: when the step
/// ends the swap at the price limit, what the log reports beyond the
/// calculated amount counts as further fee.
pub open spec fn log_patch_spec(
    cache: SwapCache,
    remaining: I256,
    sqrt_price: U256,
    calculated: I256,
    fee_amount: U256,
) -> Result<(I256, U256), AMMError> {
    match cache.amount_in_from_log {
        None => Ok((calculated, fee_amount)),
        Some(amount_in) => {
            if cache.exact_input {
                Err(AMMError::ReplayInconsistency)
            } else if remaining@ == 0 && sqrt_price == cache.sqrt_price_limit_x96 {
                let extra_fee: int = amount_in@ - calculated@;
                if extra_fee > I256::max_int() {
                    Err(AMMError::ArithmeticError(ArithmeticError::Overflow))
                } else if extra_fee < 0 {
                    Err(AMMError::ReplayInconsistency)
                } else {
                    Ok((amount_in, add_u256(fee_amount, u256_from_nat(extra_fee as nat))))
                }
            } else {
                Ok((calculated, fee_amount))
            }
        },
    }
}

/// Takes a log's input amount into account; see [`log_patch_spec`].
pub fn apply_log_patch(
    cache: &SwapCache,
    remaining: I256,
    sqrt_price: U256,
    calculated: I256,
    fee_amount: U256,
) -> (r: Result<(I256, U256), AMMError>)
    ensures
        r == log_patch_spec(*cache, remaining, sqrt_price, calculated, fee_amount),
{
    broadcast use lemma_from_nat_view;

    match cache.amount_in_from_log {
        None => Ok((calculated, fee_amount)),
        Some(amount_in) => {
            proof {
                amount_in.lemma_range();
                calculated.lemma_range();
            }
            if cache.exact_input {
                Err(AMMError::ReplayInconsistency)
            } else if remaining.is_zero() && sqrt_price.equals(cache.sqrt_price_limit_x96) {
                match amount_in.checked_sub(calculated) {
                    None => {
                        if amount_in.is_negative() {
                            Err(AMMError::ReplayInconsistency)
                        } else {
                            Err(AMMError::ArithmeticError(ArithmeticError::Overflow))
                        }
                    },
                    Some(extra_fee) => {
                        if extra_fee.is_negative() {
                            Err(AMMError::ReplayInconsistency)
                        } else {
                            Ok((amount_in, wrapping_add_u256(fee_amount, extra_fee.into_raw())))
                        }
                    },
                }
            } else {
                Ok((calculated, fee_amount))
            }
        },
    }
}

/// The fee left for liquidity providers and the protocol's accumulated fee
/// after the protocol has taken `fee_amount / fee_protocol`, where the
/// protocol fee is on.
pub open spec fn protocol_fee_spec(fee_amount: U256, fee_protocol: u8, protocol_fee: u128) -> Result<
    (U256, u128),
    AMMError,
> {
    if fee_protocol > 0 {
        let delta = fee_amount@ / (fee_protocol as nat);
        if delta > u128::MAX {
            Err(AMMError::ArithmeticError(ArithmeticError::U128ConversionError))
        } else if protocol_fee + delta > u128::MAX {
            Err(AMMError::ArithmeticError(ArithmeticError::Overflow))
        } else {
            Ok((u256_from_nat((fee_amount@ - delta) as nat), (protocol_fee + delta) as u128))
        }
    } else {
        Ok((fee_amount, protocol_fee))
    }
}

/// Splits the protocol's share off a step's fee; see [`protocol_fee_spec`].
pub fn take_protocol_fee(fee_amount: U256, fee_protocol: u8, protocol_fee: u128) -> (r: Result<
    (U256, u128),
    AMMError,
>)
    ensures
        r == protocol_fee_spec(fee_amount, fee_protocol, protocol_fee),
{
    broadcast use lemma_from_nat_view;

    if fee_protocol > 0 {
        proof {
            vstd::arithmetic::div_mod::lemma_div_is_ordered_by_denominator(
                fee_amount@ as int,
                1,
                fee_protocol as int,
            );
            vstd::arithmetic::div_mod::lemma_div_pos_is_pos(
                fee_amount@ as int,
                fee_protocol as int,
            );
        }
        let delta: U256 = match fee_amount.checked_div_rem(U256::from_u64(fee_protocol as u64)) {
            Some(qr) => qr.0,
            None => {
                assert(false);
                U256::zero()
            },
        };
        let rest: U256 = match fee_amount.checked_sub(delta) {
            Some(d) => d,
            None => {
                assert(false);
                U256::zero()
            },
        };
        match delta.to_u128() {
            None => Err(AMMError::ArithmeticError(ArithmeticError::U128ConversionError)),
            Some(d) => match protocol_fee.checked_add(d) {
                None => Err(AMMError::ArithmeticError(ArithmeticError::Overflow)),
                Some(total) => Ok((rest, total)),
            },
        }
    } else {
        Ok((fee_amount, protocol_fee))
    }
}

/// The fee growth after a step's fee has been spread over the in-range
/// liquidity: it grows by `fee_amount * 2^128 / liquidity`, wrapping at 256
/// bits, and stays as it is without liquidity.
pub open spec fn fee_growth_spec(fee_growth: U256, fee_amount: U256, liquidity: u128) -> Result<
    U256,
    AMMError,
> {
    if liquidity > 0 {
        match mul_div_spec(fee_amount@, two_pow_128(), liquidity as nat) {
            Some(growth) => Ok(add_u256(fee_growth, u256_from_nat(growth))),
            None => Err(AMMError::ArithmeticError(ArithmeticError::MulDivError)),
        }
    } else {
        Ok(fee_growth)
    }
}

/// Adds a step's fee to the fee growth; see [`fee_growth_spec`].
pub fn grow_fee_growth(fee_growth: U256, fee_amount: U256, liquidity: u128) -> (r: Result<
    U256,
    AMMError,
>)
    ensures
        r == fee_growth_spec(fee_growth, fee_amount, liquidity),
{
    broadcast use lemma_from_nat_view;

    if liquidity > 0 {
        proof {
            lemma_two_pows();
        }
        match mul_div(fee_amount, U256::pow2(128), U256::from_u128(liquidity)) {
            Ok(growth) => Ok(wrapping_add_u256(fee_growth, growth)),
            Err(_) => Err(AMMError::ArithmeticError(ArithmeticError::MulDivError)),
        }
    } else {
        Ok(fee_growth)
    }
}

/// The fee growth and the protocol's fee after a step's fee has been
/// booked; a swap that keeps no books leaves both as they are.
pub open spec fn step_fees_spec(cache: SwapCache, fee_amount: U256, state: SwapState) -> Result<
    (U256, u128),
    AMMError,
> {
    if cache.track_fees {
        match protocol_fee_spec(fee_amount, cache.fee_protocol, state.protocol_fee) {
            Err(e) => Err(e),
            Ok(fees) => match fee_growth_spec(
                state.fee_growth_global_x128,
                fees.0,
                state.liquidity,
            ) {
                Err(e) => Err(e),
                Ok(fee_growth) => Ok((fee_growth, fees.1)),
            },
        }
    } else {
        Ok((state.fee_growth_global_x128, state.protocol_fee))
    }
}

/// Books a step's fee; see [`step_fees_spec`].
pub fn book_step_fees(cache: &SwapCache, fee_amount: U256, state: &SwapState) -> (r: Result<
    (U256, u128),
    AMMError,
>)
    ensures
        r == step_fees_spec(*cache, fee_amount, *state),
{
    if cache.track_fees {
        let fees: (U256, u128) = take_protocol_fee(
            fee_amount,
            cache.fee_protocol,
            state.protocol_fee,
        )?;
        let fee_growth: U256 = grow_fee_growth(
            state.fee_growth_global_x128,
            fees.0,
            state.liquidity,
        )?;
        Ok((fee_growth, fees.1))
    } else {
        Ok((state.fee_growth_global_x128, state.protocol_fee))
    }
}

/// The tick records after the crossings of a swap have been applied, in order.
pub open spec fn apply_crossings(base: Map<i32, Tick>, crossed: Seq<CrossedTick>) -> Map<
    i32,
    Tick,
>
    decreases crossed.len(),
{
    if crossed.len() == 0 {
        base
    } else {
        apply_crossings(base, crossed.drop_last()).insert(crossed.last().tick, crossed.last().info)
    }
}

/// The record of `tick` as the swap sees it: the record of its latest
/// crossing, or the pool's record where the swap has not crossed it.
pub fn current_tick_info(ticks: &Ticks, crossed: &Vec<CrossedTick>, tick: i32) -> (r: Tick)
    ensures
        r == tick_info(apply_crossings(ticks@, crossed@), tick),
{
    let mut i: usize = crossed.len();
    assert(crossed@.take(crossed@.len() as int) =~= crossed@);
    while i > 0
        invariant
            i <= crossed@.len(),
            tick_info(apply_crossings(ticks@, crossed@), tick) == tick_info(
                apply_crossings(ticks@, crossed@.take(i as int)),
                tick,
            ),
        decreases i,
    {
        let entry: &CrossedTick = &crossed[i - 1];
        proof {
            assert(crossed@.take(i as int).drop_last() =~= crossed@.take(i - 1));
            assert(crossed@.take(i as int).last() == crossed@[i - 1]);
        }
        if entry.tick == tick {
            return entry.info;
        }
        i = i - 1;
    }
    proof {
        assert(crossed@.take(0).len() == 0);
    }
    ticks.get(tick)
}

/// The outcome of the tick transition at the end of a step: the tick, the
/// liquidity and the crossing, if there was one.
///
/// When the price has reached the price of the step's next tick, that tick
/// is crossed if it is initialized: its outside values flip and its net
/// liquidity enters the in-range liquidity, negated on the way down. The
/// tick becomes the next tick, or the one below it on the way down. When
/// the price has moved without reaching the next tick, the tick is that of
/// the new price. The tick must end between `MIN_TICK` and `MAX_TICK`.
pub open spec fn shift_tick_spec(
    ticks: Map<i32, Tick>,
    cache: SwapCache,
    tick: i32,
    liquidity: u128,
    target: StepComputations,
    sqrt_price: U256,
    fee_growth: U256,
) -> Result<(i32, u128, Option<CrossedTick>), AMMError> {
    if sqrt_price == target.sqrt_price_next_x96 {
        let tick_after: int = if cache.zero_for_one {
            target.tick_next - 1
        } else {
            target.tick_next as int
        };
        if target.initialized {
            let info = tick_info(ticks, target.tick_next);
            let acc = Accumulators {
                fee_growth_global_0_x128: if cache.zero_for_one {
                    fee_growth
                } else {
                    cache.fee_growth_global_0_x128
                },
                fee_growth_global_1_x128: if cache.zero_for_one {
                    cache.fee_growth_global_1_x128
                } else {
                    fee_growth
                },
                seconds_per_liquidity_cumulative_x128: cache.seconds_per_liquidity_cumulative_x128,
                tick_cumulative: cache.tick_cumulative,
                time: cache.block_timestamp,
            };
            if cache.zero_for_one && info.liquidity_net == i128::MIN {
                Err(AMMError::ArithmeticError(ArithmeticError::Overflow))
            } else {
                let liquidity_net: i128 = if cache.zero_for_one {
                    (-info.liquidity_net) as i128
                } else {
                    info.liquidity_net
                };
                match add_delta_spec(liquidity, liquidity_net) {
                    Err(e) => Err(e),
                    Ok(liquidity_after) => if tick_after < MIN_TICK {
                        Err(AMMError::ArithmeticError(ArithmeticError::SqrtPriceOutOfBounds))
                    } else {
                        Ok(
                            (
                                tick_after as i32,
                                liquidity_after,
                                Some(
                                    CrossedTick {
                                        tick: target.tick_next,
                                        info: info.cross_spec(acc),
                                    },
                                ),
                            ),
                        )
                    },
                }
            }
        } else if tick_after < MIN_TICK {
            Err(AMMError::ArithmeticError(ArithmeticError::SqrtPriceOutOfBounds))
        } else {
            Ok((tick_after as i32, liquidity, None))
        }
    } else if sqrt_price != target.sqrt_price_start_x_96 {
        match tick_at_sqrt_price_spec(sqrt_price@) {
            Ok(tick_after) => Ok((tick_after, liquidity, None)),
            Err(e) => Err(AMMError::ArithmeticError(e)),
        }
    } else {
        Ok((tick, liquidity, None))
    }
}

/// Performs the tick transition at the end of a step; see [`shift_tick_spec`].
pub fn shift_tick(
    ticks: &Ticks,
    crossed: &Vec<CrossedTick>,
    cache: &SwapCache,
    tick: i32,
    liquidity: u128,
    target: &StepComputations,
    sqrt_price: U256,
    fee_growth: U256,
) -> (r: Result<(i32, u128, Option<CrossedTick>), AMMError>)
    requires
        MIN_TICK <= tick <= MAX_TICK,
        MIN_TICK <= target.tick_next <= MAX_TICK,
    ensures
        r == shift_tick_spec(
            apply_crossings(ticks@, crossed@),
            *cache,
            tick,
            liquidity,
            *target,
            sqrt_price,
            fee_growth,
        ),
        r matches Ok(shifted) ==> MIN_TICK <= shifted.0 <= MAX_TICK,
{
    if sqrt_price.equals(target.sqrt_price_next_x96) {
        let tick_after: i32 = if cache.zero_for_one {
            target.tick_next - 1
        } else {
            target.tick_next
        };
        if target.initialized {
            let info: Tick = current_tick_info(ticks, crossed, target.tick_next);
            let acc = Accumulators {
                fee_growth_global_0_x128: if cache.zero_for_one {
                    fee_growth
                } else {
                    cache.fee_growth_global_0_x128
                },
                fee_growth_global_1_x128: if cache.zero_for_one {
                    cache.fee_growth_global_1_x128
                } else {
                    fee_growth
                },
                seconds_per_liquidity_cumulative_x128: cache.seconds_per_liquidity_cumulative_x128,
                tick_cumulative: cache.tick_cumulative,
                time: cache.block_timestamp,
            };
            if cache.zero_for_one && info.liquidity_net == i128::MIN {
                return Err(AMMError::ArithmeticError(ArithmeticError::Overflow));
            }
            let liquidity_net: i128 = if cache.zero_for_one {
                -info.liquidity_net
            } else {
                info.liquidity_net
            };
            let liquidity_after: u128 = match add_delta(liquidity, liquidity_net) {
                Ok(l) => l,
                Err(e) => {
                    return Err(e);
                },
            };
            if tick_after < MIN_TICK {
                return Err(AMMError::ArithmeticError(ArithmeticError::SqrtPriceOutOfBounds));
            }
            Ok(
                (
                    tick_after,
                    liquidity_after,
                    Some(CrossedTick { tick: target.tick_next, info: info.cross(acc) }),
                ),
            )
        } else if tick_after < MIN_TICK {
            Err(AMMError::ArithmeticError(ArithmeticError::SqrtPriceOutOfBounds))
        } else {
            Ok((tick_after, liquidity, None))
        }
    } else if !sqrt_price.equals(target.sqrt_price_start_x_96) {
        match tick_at_sqrt_price(sqrt_price) {
            Ok(tick_after) => Ok((tick_after, liquidity, None)),
            Err(e) => Err(AMMError::ArithmeticError(e)),
        }
    } else {
        Ok((tick, liquidity, None))
    }
}

/// The state after one step of the swap from `state`, and the crossing of
/// the step, if there was one.
pub open spec fn swap_step_spec(
    bitmap: Map<i16, U256>,
    ticks: Map<i32, Tick>,
    cache: SwapCache,
    state: SwapState,
) -> Result<(SwapState, Option<CrossedTick>), AMMError> {
    let target = step_target_spec(bitmap, cache, state.tick, state.sqrt_price_x_96);
    match checked_swap_step_spec(
        state.sqrt_price_x_96,
        target.sqrt_price_target_x96,
        state.liquidity,
        state.amount_specified_remaining,
        cache.fee,
    ) {
        Err(e) => Err(e),
        Ok(step) => match settle_amounts_spec(
            state.amount_specified_remaining,
            state.amount_calculated,
            cache.exact_input,
            step,
        ) {
            Err(e) => Err(e),
            Ok(amounts) => match log_patch_spec(
                cache,
                amounts.0,
                step.sqrt_price_next_x96,
                amounts.1,
                step.fee_amount,
            ) {
                Err(e) => Err(e),
                Ok(patched) => match step_fees_spec(cache, patched.1, state) {
                    Err(e) => Err(e),
                    Ok(fees) => match shift_tick_spec(
                        ticks,
                        cache,
                        state.tick,
                        state.liquidity,
                        target,
                        step.sqrt_price_next_x96,
                        fees.0,
                    ) {
                        Err(e) => Err(e),
                        Ok(shifted) => Ok(
                            (
                                SwapState {
                                    amount_specified_remaining: amounts.0,
                                    amount_calculated: patched.0,
                                    sqrt_price_x_96: step.sqrt_price_next_x96,
                                    tick: shifted.0,
                                    fee_growth_global_x128: fees.0,
                                    protocol_fee: fees.1,
                                    liquidity: shifted.1,
                                },
                                shifted.2,
                            ),
                        ),
                    },
                },
            },
        },
    }
}

/// Takes one step of the swap; see [`swap_step_spec`].
pub fn swap_step(
    bitmap: &TickBitmap,
    ticks: &Ticks,
    crossed: &Vec<CrossedTick>,
    cache: &SwapCache,
    state: &SwapState,
) -> (r: Result<(SwapState, Option<CrossedTick>), AMMError>)
    requires
        0 < cache.tick_spacing <= MAX_TICK_SPACING,
        MIN_TICK <= state.tick <= MAX_TICK,
    ensures
        r == swap_step_spec(bitmap@, apply_crossings(ticks@, crossed@), *cache, *state),
        r matches Ok(next) ==> MIN_TICK <= next.0.tick <= MAX_TICK,
{
    let target: StepComputations = step_target(bitmap, cache, state.tick, state.sqrt_price_x_96);
    let step: SwapStep = compute_swap_step(
        state.sqrt_price_x_96,
        target.sqrt_price_target_x96,
        state.liquidity,
        state.amount_specified_remaining,
        cache.fee,
    )?;
    let amounts: (I256, I256) = settle_amounts(
        state.amount_specified_remaining,
        state.amount_calculated,
        cache.exact_input,
        step,
    )?;
    let patched: (I256, U256) = apply_log_patch(
        cache,
        amounts.0,
        step.sqrt_price_next_x96,
        amounts.1,
        step.fee_amount,
    )?;
    let fees: (U256, u128) = book_step_fees(cache, patched.1, state)?;
    let shifted: (i32, u128, Option<CrossedTick>) = shift_tick(
        ticks,
        crossed,
        cache,
        state.tick,
        state.liquidity,
        &target,
        step.sqrt_price_next_x96,
        fees.0,
    )?;
    Ok(
        (
            SwapState {
                amount_specified_remaining: amounts.0,
                amount_calculated: patched.0,
                sqrt_price_x_96: step.sqrt_price_next_x96,
                tick: shifted.0,
                fee_growth_global_x128: fees.0,
                protocol_fee: fees.1,
                liquidity: shifted.1,
            },
            shifted.2,
        ),
    )
}

} // verus!
