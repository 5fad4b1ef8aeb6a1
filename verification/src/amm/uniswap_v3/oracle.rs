//! The ring of price and liquidity observations.

use vstd::prelude::*;

use crate::amm::uniswap_v3::pool::{PoolView, UniswapV3Pool};
use crate::errors::{AMMError, ArithmeticError, LogicError};
use crate::primitives::full_math::mul_div;
use crate::primitives::u256::{
    lemma_from_nat_view, lemma_halves, lemma_two_pows, two_pow_128, two_pow_160, two_pow_256,
    u256_from_nat,
};
use crate::primitives::wrapping::{
    add_u160, is_i56, is_u160, wrap_i56, wrap_to_i56, wrap_u160, wrap_u32, wrapping_add_u160,
    wrapping_sub_u160, wrapping_sub_u32,
};
use crate::primitives::U256;

verus! {

/// One sample of the cumulative tick and seconds-per-liquidity.
#[derive(Clone, Copy, Debug, PartialEq, Eq, Structural)]
pub struct Observation {
    pub block_timestamp: u32,
    pub tick_cumulative: i64,
    pub seconds_per_liquidity_cumulative_x128: U256,
    pub initialized: bool,
}

impl Observation {
    /// Whether the observation's accumulators are within their widths: the
    /// tick accumulator in 56 bits with a sign, seconds per liquidity in 160.
    pub open spec fn wf(self) -> bool {
        is_i56(self.tick_cumulative as int) && is_u160(
            self.seconds_per_liquidity_cumulative_x128@,
        )
    }

    /// A slot that was never written.
    pub open spec fn empty() -> Observation {
        Observation {
            block_timestamp: 0,
            tick_cumulative: 0,
            seconds_per_liquidity_cumulative_x128: U256 { l0: 0, l1: 0, l2: 0, l3: 0 },
            initialized: false,
        }
    }

    /// A slot that was never written.
    pub fn new() -> (r: Observation)
        ensures
            r == Observation::empty(),
            r.wf(),
    {
        proof {
            lemma_halves(U256 { l0: 0, l1: 0, l2: 0, l3: 0 });
        }
        Observation {
            block_timestamp: 0,
            tick_cumulative: 0,
            seconds_per_liquidity_cumulative_x128: U256 { l0: 0, l1: 0, l2: 0, l3: 0 },
            initialized: false,
        }
    }

    /// A slot that growing the ring has prepared: not yet written, with the
    /// timestamp 1 that marks it as prepared.
    pub open spec fn prepared() -> Observation {
        Observation { block_timestamp: 1, ..Observation::empty() }
    }
}

/// The liquidity that the seconds-per-liquidity accumulator divides by.
pub open spec fn effective_liquidity(liquidity: u128) -> nat {
    if liquidity > 0 {
        liquidity as nat
    } else {
        1
    }
}

/// `elapsed * 2^128 / liquidity`, with zero liquidity counted as 1.
pub open spec fn seconds_per_liquidity_spec(elapsed: nat, liquidity: u128) -> nat {
    (elapsed * two_pow_128()) / effective_liquidity(liquidity)
}

/// The observation that follows `last` at `block_timestamp`, with `tick` and
/// `liquidity` in force since `last`: the tick accumulates `tick * elapsed`
/// and seconds-per-liquidity accumulates `elapsed * 2^128 / liquidity`.
pub open spec fn transform_spec(
    last: Observation,
    block_timestamp: u32,
    tick: i32,
    liquidity: u128,
) -> Observation {
    let delta = wrap_u32(block_timestamp - last.block_timestamp);
    Observation {
        block_timestamp,
        tick_cumulative: wrap_i56(last.tick_cumulative + tick * delta) as i64,
        seconds_per_liquidity_cumulative_x128: add_u160(
            last.seconds_per_liquidity_cumulative_x128,
            u256_from_nat(seconds_per_liquidity_spec(delta, liquidity)),
        ),
        initialized: true,
    }
}

/// `elapsed * 2^128 / liquidity`, with zero liquidity counted as 1.
fn seconds_per_liquidity(delta: u32, liquidity: u128) -> (r: U256)
    ensures
        r == u256_from_nat(seconds_per_liquidity_spec(delta as nat, liquidity)),
        r@ < two_pow_160(),
{
    broadcast use lemma_from_nat_view;

    let divisor: u128 = if liquidity > 0 {
        liquidity
    } else {
        1
    };
    proof {
        lemma_two_pows();
        let n = (delta as nat) * two_pow_128();
        assert(n < two_pow_160()) by (nonlinear_arith)
            requires
                n == (delta as nat) * two_pow_128(),
                delta < 0x1_0000_0000,
                two_pow_160() == 0x1_0000_0000 * two_pow_128(),
        ;
        vstd::arithmetic::div_mod::lemma_div_is_ordered_by_denominator(
            n as int,
            1,
            divisor as int,
        );
        vstd::arithmetic::div_mod::lemma_div_pos_is_pos(n as int, divisor as int);
    }
    match mul_div(U256::from_u64(delta as u64), U256::pow2(128), U256::from_u128(divisor)) {
        Ok(q) => q,
        Err(_) => {
            assert(false);
            U256::zero()
        },
    }
}

/// Transforms a previous observation into a new one; see [`transform_spec`].
pub fn transform(last: &Observation, block_timestamp: u32, tick: i32, liquidity: u128) -> (r:
    Observation)
    ensures
        r == transform_spec(*last, block_timestamp, tick, liquidity),
        r.wf(),
{
    let delta: u32 = wrapping_sub_u32(block_timestamp, last.block_timestamp);
    assert(-0x8000_0000 * 0x1_0000_0000 <= tick * delta <= 0x8000_0000 * 0x1_0000_0000)
        by (nonlinear_arith)
        requires
            -0x8000_0000 <= tick < 0x8000_0000,
            0 <= delta < 0x1_0000_0000,
    ;
    let moved: i128 = (tick as i128) * (delta as i128);
    Observation {
        block_timestamp,
        tick_cumulative: wrap_to_i56(last.tick_cumulative as i128 + moved),
        seconds_per_liquidity_cumulative_x128: wrapping_add_u160(
            last.seconds_per_liquidity_cumulative_x128,
            seconds_per_liquidity(delta, liquidity),
        ),
        initialized: true,
    }
}

/// Whether `a` is chronologically at or before `b`, both read as times at or
/// before `time` on a 32-bit clock that may have wrapped once.
pub open spec fn lte_spec(time: u32, a: u32, b: u32) -> bool {
    if a <= time && b <= time {
        a <= b
    } else {
        let a_adjusted: int = if a > time {
            a as int
        } else {
            a + 0x1_0000_0000
        };
        let b_adjusted: int = if b > time {
            b as int
        } else {
            b + 0x1_0000_0000
        };
        a_adjusted <= b_adjusted
    }
}

/// Compares two 32-bit timestamps with wrap-around; see [`lte_spec`].
pub fn lte(time: u32, a: u32, b: u32) -> (r: bool)
    ensures
        r == lte_spec(time, a, b),
{
    if a <= time && b <= time {
        return a <= b;
    }
    let a_adjusted: u64 = if a > time {
        a as u64
    } else {
        (a as u64) + 0x1_0000_0000u64
    };
    let b_adjusted: u64 = if b > time {
        b as u64
    } else {
        (b as u64) + 0x1_0000_0000u64
    };
    a_adjusted <= b_adjusted
}

/// Whether every observation of the ring has its accumulators within
/// their widths.
pub open spec fn ring_valid(ring: Seq<Observation>) -> bool {
    forall|i: int| 0 <= i < ring.len() ==> (#[trigger] ring[i]).wf()
}

/// The observation in slot `index`; a slot beyond the ring is unwritten.
pub open spec fn observation_at(ring: Seq<Observation>, index: int) -> Observation {
    if 0 <= index < ring.len() {
        ring[index]
    } else {
        Observation::empty()
    }
}

/// The ring after slot `index` has been written, padded with unwritten
/// slots where the ring was shorter.
pub open spec fn save_spec(ring: Seq<Observation>, index: int, value: Observation) -> Seq<
    Observation,
> {
    if index < ring.len() {
        ring.update(index, value)
    } else {
        (ring + Seq::new((index - ring.len()) as nat, |i: int| Observation::empty())).push(value)
    }
}

/// The index written next and the cardinality in force after a write at
/// `index`: the ring takes its grown size once the last slot was written.
pub open spec fn next_slot_spec(index: u16, cardinality: u16, cardinality_next: u16) -> (u16, u16) {
    let cardinality_updated = if cardinality_next > cardinality && index == cardinality - 1 {
        cardinality_next
    } else {
        cardinality
    };
    (((index + 1) % (cardinality_updated as int)) as u16, cardinality_updated)
}

/// Whether a write for `block_timestamp` is defined: the ring counts at
/// least one observation, or the latest slot is from that timestamp already
/// and the write changes nothing.
pub open spec fn writable_spec(
    ring: Seq<Observation>,
    index: u16,
    block_timestamp: u32,
    cardinality: u16,
) -> bool {
    cardinality > 0 || observation_at(ring, index as int).block_timestamp == block_timestamp
}

/// The ring, the index and the cardinality after a write: nothing changes
/// when the latest observation is from the same timestamp.
pub open spec fn write_spec(
    ring: Seq<Observation>,
    index: u16,
    block_timestamp: u32,
    tick: i32,
    liquidity: u128,
    cardinality: u16,
    cardinality_next: u16,
) -> (Seq<Observation>, u16, u16) {
    let last = observation_at(ring, index as int);
    if last.block_timestamp == block_timestamp {
        (ring, index, cardinality)
    } else {
        let (index_updated, cardinality_updated) = next_slot_spec(
            index,
            cardinality,
            cardinality_next,
        );
        (
            save_spec(
                ring,
                index_updated as int,
                transform_spec(last, block_timestamp, tick, liquidity),
            ),
            index_updated,
            cardinality_updated,
        )
    }
}

/// The ring after it was prepared to hold `next` observations.
pub open spec fn grow_spec(ring: Seq<Observation>, current: u16, next: u16) -> Seq<Observation>
    decreases next - current,
{
    if next <= current {
        ring
    } else {
        save_spec(
            grow_spec(ring, current, (next - 1) as u16),
            next - 1,
            Observation::prepared(),
        )
    }
}

/// The latest accumulators as of `time`: those of the latest observation,
/// carried forward to `time` when it is older.
pub open spec fn observe_latest_spec(
    ring: Seq<Observation>,
    time: u32,
    tick: i32,
    index: u16,
    liquidity: u128,
) -> (i64, U256) {
    let last = observation_at(ring, index as int);
    let now = if last.block_timestamp != time {
        transform_spec(last, time, tick, liquidity)
    } else {
        last
    };
    (now.tick_cumulative, now.seconds_per_liquidity_cumulative_x128)
}

/// The pair of observations around `target` that a binary search between
/// the positions `l` and `r` of the unrolled ring finds, skipping unwritten
/// slots; `None` when the range is exhausted.
pub open spec fn binary_search_spec(
    ring: Seq<Observation>,
    time: u32,
    target: u32,
    l: int,
    r: int,
    cardinality: int,
) -> Option<(Observation, Observation)>
    decreases r - l + 1,
{
    if l > r || l < 0 || cardinality <= 0 {
        None
    } else {
        let i = (l + r) / 2;
        let before_or_at = observation_at(ring, i % cardinality);
        if !before_or_at.initialized {
            binary_search_spec(ring, time, target, i + 1, r, cardinality)
        } else {
            let at_or_after = observation_at(ring, (i + 1) % cardinality);
            let target_at_or_after = lte_spec(time, before_or_at.block_timestamp, target);
            if target_at_or_after && lte_spec(time, target, at_or_after.block_timestamp) {
                Some((before_or_at, at_or_after))
            } else if !target_at_or_after {
                binary_search_spec(ring, time, target, l, i - 1, cardinality)
            } else {
                binary_search_spec(ring, time, target, i + 1, r, cardinality)
            }
        }
    }
}

/// The observations at or before and at or after `target`.
///
/// When the latest observation is at or before the target, it is returned
/// with its transform to the target (or with an unwritten slot when it is
/// exactly at the target). Otherwise the oldest observation must not be
/// after the target, and the pair is searched in the ring.
pub open spec fn surrounding_observations_spec(
    ring: Seq<Observation>,
    time: u32,
    target: u32,
    tick: i32,
    index: u16,
    liquidity: u128,
    cardinality: u16,
) -> Result<(Observation, Observation), AMMError> {
    let latest = observation_at(ring, index as int);
    if lte_spec(time, latest.block_timestamp, target) {
        if latest.block_timestamp == target {
            Ok((latest, Observation::empty()))
        } else {
            Ok((latest, transform_spec(latest, target, tick, liquidity)))
        }
    } else {
        let after_latest = observation_at(ring, (index + 1) % (cardinality as int));
        let oldest = if after_latest.initialized {
            after_latest
        } else {
            observation_at(ring, 0)
        };
        if !lte_spec(time, oldest.block_timestamp, target) {
            Err(AMMError::LogicError(LogicError::ObservationTooOld))
        } else {
            let l = (index + 1) % (cardinality as int);
            match binary_search_spec(ring, time, target, l, l + cardinality - 1, cardinality as int) {
                Some(pair) => Ok(pair),
                None => Err(AMMError::LogicError(LogicError::ObservationMissing)),
            }
        }
    }
}

/// The quotient of a signed dividend and a positive divisor, rounded towards zero.
pub open spec fn div_towards_zero(a: int, b: int) -> int {
    if a >= 0 {
        a / b
    } else {
        -((-a) / b)
    }
}

/// The accumulators at `target` between two observations, by linear
/// interpolation in 56-bit and 160-bit wrapping arithmetic.
pub open spec fn interpolate_spec(
    before_or_at: Observation,
    at_or_after: Observation,
    target: u32,
) -> Result<(i64, U256), AMMError> {
    if target == before_or_at.block_timestamp {
        Ok(
            (
                before_or_at.tick_cumulative,
                before_or_at.seconds_per_liquidity_cumulative_x128,
            ),
        )
    } else if target == at_or_after.block_timestamp {
        Ok((at_or_after.tick_cumulative, at_or_after.seconds_per_liquidity_cumulative_x128))
    } else {
        let observation_time_delta = wrap_u32(
            at_or_after.block_timestamp - before_or_at.block_timestamp,
        );
        let target_delta = wrap_u32(target - before_or_at.block_timestamp);
        if observation_time_delta == 0 {
            Err(AMMError::ArithmeticError(ArithmeticError::MulDivError))
        } else {
            let tick_rate = wrap_i56(
                div_towards_zero(
                    wrap_i56(at_or_after.tick_cumulative - before_or_at.tick_cumulative),
                    observation_time_delta as int,
                ),
            );
            let tick_cumulative = wrap_i56(
                before_or_at.tick_cumulative + wrap_i56(tick_rate * target_delta),
            );
            let growth = wrap_u160(
                at_or_after.seconds_per_liquidity_cumulative_x128@
                    - before_or_at.seconds_per_liquidity_cumulative_x128@,
            );
            let share = wrap_u160((growth * target_delta) as int) / observation_time_delta;
            Ok(
                (
                    tick_cumulative as i64,
                    add_u160(
                        before_or_at.seconds_per_liquidity_cumulative_x128,
                        u256_from_nat(share),
                    ),
                ),
            )
        }
    }
}

/// The accumulators as of `seconds_ago` before `time`.
pub open spec fn observe_single_spec(
    ring: Seq<Observation>,
    time: u32,
    seconds_ago: u32,
    tick: i32,
    index: u16,
    liquidity: u128,
    cardinality: u16,
) -> Result<(i64, U256), AMMError> {
    if seconds_ago == 0 {
        Ok(observe_latest_spec(ring, time, tick, index, liquidity))
    } else {
        let target = wrap_u32(time - seconds_ago) as u32;
        match surrounding_observations_spec(
            ring,
            time,
            target,
            tick,
            index,
            liquidity,
            cardinality,
        ) {
            Err(e) => Err(e),
            Ok(pair) => interpolate_spec(pair.0, pair.1, target),
        }
    }
}

/// The accumulators for the first `count` of `seconds_agos`, or the first error among them.
pub open spec fn observe_spec(
    ring: Seq<Observation>,
    time: u32,
    seconds_agos: Seq<u32>,
    tick: i32,
    index: u16,
    liquidity: u128,
    cardinality: u16,
    count: nat,
) -> Result<(Seq<i64>, Seq<U256>), AMMError>
    decreases count,
{
    if count == 0 {
        Ok((Seq::<i64>::empty(), Seq::<U256>::empty()))
    } else {
        match observe_spec(
            ring,
            time,
            seconds_agos,
            tick,
            index,
            liquidity,
            cardinality,
            (count - 1) as nat,
        ) {
            Err(e) => Err(e),
            Ok(sofar) => match observe_single_spec(
                ring,
                time,
                seconds_agos[count - 1],
                tick,
                index,
                liquidity,
                cardinality,
            ) {
                Err(e) => Err(e),
                Ok(one) => Ok((sofar.0.push(one.0), sofar.1.push(one.1))),
            },
        }
    }
}

/// The ring of observations; slot 0 is the oldest slot of a fresh pool.
#[derive(Clone, Debug)]
pub struct Observations {
    pub ring: Vec<Observation>,
}

impl View for Observations {
    type V = Seq<Observation>;

    open spec fn view(&self) -> Seq<Observation> {
        self.ring@
    }
}

impl Observations {
    /// A ring with no slot written.
    pub fn new() -> (r: Observations)
        ensures
            r@ == Seq::<Observation>::empty(),
            ring_valid(r@),
    {
        Observations { ring: Vec::new() }
    }

    /// The observation in slot `index`.
    pub fn get(&self, index: u16) -> (r: Observation)
        ensures
            r == observation_at(self@, index as int),
            ring_valid(self@) ==> r.wf(),
    {
        if (index as usize) < self.ring.len() {
            self.ring[index as usize]
        } else {
            Observation::new()
        }
    }

    /// Writes slot `index`.
    pub fn save(&mut self, index: u16, value: Observation)
        ensures
            final(self)@ == save_spec(old(self)@, index as int, value),
            ring_valid(old(self)@) && value.wf() ==> ring_valid(final(self)@),
    {
        if (index as usize) < self.ring.len() {
            self.ring[index as usize] = value;
        } else {
            let ghost start = self.ring@;
            while self.ring.len() < index as usize
                invariant
                    start.len() <= self.ring.len() <= index,
                    self.ring@ == start + Seq::new(
                        (self.ring.len() - start.len()) as nat,
                        |i: int| Observation::empty(),
                    ),
                decreases index - self.ring.len(),
            {
                let ghost before = self.ring@;
                self.ring.push(Observation::new());
                assert(self.ring@ =~= start + Seq::new(
                    (self.ring.len() - start.len()) as nat,
                    |i: int| Observation::empty(),
                ));
            }
            self.ring.push(value);
        }
    }

    /// Initializes the ring by writing slot 0 at `time`; returns the
    /// cardinality and the next cardinality, both 1.
    pub fn initialize(&mut self, time: u32) -> (r: (u16, u16))
        ensures
            r == (1u16, 1u16),
            final(self)@ == save_spec(old(self)@, 0, initial_observation(time)),
            ring_valid(old(self)@) ==> ring_valid(final(self)@),
    {
        proof {
            lemma_halves(U256 { l0: 0, l1: 0, l2: 0, l3: 0 });
        }
        self.save(
            0,
            Observation {
                block_timestamp: time,
                tick_cumulative: 1,
                seconds_per_liquidity_cumulative_x128: U256 { l0: 0, l1: 0, l2: 0, l3: 0 },
                initialized: true,
            },
        );
        (1, 1)
    }

    /// Whether a write for `block_timestamp` is defined; see
    /// [`writable_spec`].
    pub fn writable(&self, index: u16, block_timestamp: u32, cardinality: u16) -> (r: bool)
        ensures
            r == writable_spec(self@, index, block_timestamp, cardinality),
    {
        cardinality > 0 || self.get(index).block_timestamp == block_timestamp
    }

    /// Writes an observation for `block_timestamp`, at most one per
    /// timestamp; returns the index written last and the cardinality.
    pub fn write(
        &mut self,
        index: u16,
        block_timestamp: u32,
        tick: i32,
        liquidity: u128,
        cardinality: u16,
        cardinality_next: u16,
    ) -> (r: (u16, u16))
        requires
            writable_spec(old(self)@, index, block_timestamp, cardinality),
        ensures
            (final(self)@, r.0, r.1) == write_spec(
                old(self)@,
                index,
                block_timestamp,
                tick,
                liquidity,
                cardinality,
                cardinality_next,
            ),
            ring_valid(old(self)@) ==> ring_valid(final(self)@),
    {
        let last: Observation = self.get(index);
        if last.block_timestamp == block_timestamp {
            return (index, cardinality);
        }
        let (index_updated, cardinality_updated): (u16, u16) = next_slot(
            index,
            cardinality,
            cardinality_next,
        );
        self.save(index_updated, transform(&last, block_timestamp, tick, liquidity));
        (index_updated, cardinality_updated)
    }

    /// Prepares the ring to hold `next` observations; returns the next
    /// cardinality in force afterwards.
    pub fn grow(&mut self, current: u16, next: u16) -> (r: u16)
        requires
            current > 0,
        ensures
            r == (if next <= current {
                current
            } else {
                next
            }),
            final(self)@ == grow_spec(old(self)@, current, next),
            ring_valid(old(self)@) ==> ring_valid(final(self)@),
    {
        if next <= current {
            return current;
        }
        proof {
            lemma_halves(U256 { l0: 0, l1: 0, l2: 0, l3: 0 });
        }
        let mut i: u16 = current;
        while i < next
            invariant
                current <= i <= next,
                self@ == grow_spec(old(self)@, current, i),
                ring_valid(old(self)@) ==> ring_valid(self@),
                (U256 { l0: 0, l1: 0, l2: 0, l3: 0 })@ == 0,
            decreases next - i,
        {
            self.save(
                i,
                Observation {
                    block_timestamp: 1,
                    tick_cumulative: 0,
                    seconds_per_liquidity_cumulative_x128: U256 { l0: 0, l1: 0, l2: 0, l3: 0 },
                    initialized: false,
                },
            );
            i = i + 1;
            assert((i - 1) as u16 == i - 1);
        }
        next
    }

    /// The latest accumulators as of `time`; see [`observe_latest_spec`].
    pub fn observe_latest(&self, time: u32, tick: i32, index: u16, liquidity: u128) -> (r: (
        i64,
        U256,
    ))
        ensures
            r == observe_latest_spec(self@, time, tick, index, liquidity),
            ring_valid(self@) ==> is_i56(r.0 as int) && is_u160(r.1@),
    {
        let mut last: Observation = self.get(index);
        if last.block_timestamp != time {
            last = transform(&last, time, tick, liquidity);
        }
        (last.tick_cumulative, last.seconds_per_liquidity_cumulative_x128)
    }

    /// Searches the ring for the observations around `target`; see
    /// [`binary_search_spec`].
    pub fn binary_search(&self, time: u32, target: u32, index: u16, cardinality: u16) -> (r:
        Option<(Observation, Observation)>)
        requires
            cardinality > 0,
        ensures
            r == binary_search_spec(
                self@,
                time,
                target,
                (index + 1) % (cardinality as int),
                (index + 1) % (cardinality as int) + cardinality - 1,
                cardinality as int,
            ),
    {
        let c: u32 = cardinality as u32;
        let mut l: u32 = (index as u32 + 1) % c;
        let mut r: u32 = l + c - 1;
        loop
            invariant
                c == cardinality,
                c > 0,
                0 <= l <= r + 1,
                r <= 0x2_0000,
                binary_search_spec(
                    self@,
                    time,
                    target,
                    (index + 1) % (cardinality as int),
                    (index + 1) % (cardinality as int) + cardinality - 1,
                    cardinality as int,
                ) == binary_search_spec(self@, time, target, l as int, r as int, c as int),
            decreases r + 1 - l,
        {
            if l > r {
                return None;
            }
            let i: u32 = (l + r) / 2;
            let before_or_at: Observation = self.get((i % c) as u16);
            if !before_or_at.initialized {
                l = i + 1;
                continue ;
            }
            let at_or_after: Observation = self.get(((i + 1) % c) as u16);
            let target_at_or_after: bool = lte(time, before_or_at.block_timestamp, target);
            if target_at_or_after && lte(time, target, at_or_after.block_timestamp) {
                return Some((before_or_at, at_or_after));
            }
            if !target_at_or_after {
                if i == 0 {
                    assert(binary_search_spec(self@, time, target, l as int, -1, c as int) is None);
                    return None;
                }
                r = i - 1;
            } else {
                l = i + 1;
            }
        }
    }

    /// The observations at or before and at or after `target`; see
    /// [`surrounding_observations_spec`].
    pub fn get_surrounding_observations(
        &self,
        time: u32,
        target: u32,
        tick: i32,
        index: u16,
        liquidity: u128,
        cardinality: u16,
    ) -> (r: Result<(Observation, Observation), AMMError>)
        requires
            cardinality > 0,
        ensures
            r == surrounding_observations_spec(
                self@,
                time,
                target,
                tick,
                index,
                liquidity,
                cardinality,
            ),
    {
        let mut before_or_at: Observation = self.get(index);
        if lte(time, before_or_at.block_timestamp, target) {
            if before_or_at.block_timestamp == target {
                return Ok((before_or_at, Observation::new()));
            } else {
                return Ok((before_or_at, transform(&before_or_at, target, tick, liquidity)));
            }
        }
        before_or_at = self.get(((index as u32 + 1) % (cardinality as u32)) as u16);
        if !before_or_at.initialized {
            before_or_at = self.get(0);
        }
        if !lte(time, before_or_at.block_timestamp, target) {
            return Err(AMMError::LogicError(LogicError::ObservationTooOld));
        }
        match self.binary_search(time, target, index, cardinality) {
            Some(pair) => Ok(pair),
            None => Err(AMMError::LogicError(LogicError::ObservationMissing)),
        }
    }

    /// The accumulators as of `seconds_ago` before `time`; see
    /// [`observe_single_spec`].
    pub fn observe_single(
        &self,
        time: u32,
        seconds_ago: u32,
        tick: i32,
        index: u16,
        liquidity: u128,
        cardinality: u16,
    ) -> (r: Result<(i64, U256), AMMError>)
        requires
            seconds_ago == 0 || cardinality > 0,
        ensures
            r == observe_single_spec(
                self@,
                time,
                seconds_ago,
                tick,
                index,
                liquidity,
                cardinality,
            ),
    {
        if seconds_ago == 0 {
            return Ok(self.observe_latest(time, tick, index, liquidity));
        }
        let target: u32 = wrapping_sub_u32(time, seconds_ago);
        match self.get_surrounding_observations(
            time,
            target,
            tick,
            index,
            liquidity,
            cardinality,
        ) {
            Err(e) => Err(e),
            Ok(pair) => interpolate(pair.0, pair.1, target),
        }
    }

    /// The accumulators as of each of `seconds_agos` before `time`, or the
    /// first error among them.
    pub fn observe(
        &self,
        time: u32,
        seconds_agos: &[u32],
        tick: i32,
        index: u16,
        liquidity: u128,
        cardinality: u16,
    ) -> (r: Result<(Vec<i64>, Vec<U256>), AMMError>)
        requires
            cardinality > 0,
        ensures
            match r {
                Ok(v) => observe_spec(
                    self@,
                    time,
                    seconds_agos@,
                    tick,
                    index,
                    liquidity,
                    cardinality,
                    seconds_agos@.len(),
                ) == Ok::<(Seq<i64>, Seq<U256>), AMMError>((v.0@, v.1@)),
                Err(e) => observe_spec(
                    self@,
                    time,
                    seconds_agos@,
                    tick,
                    index,
                    liquidity,
                    cardinality,
                    seconds_agos@.len(),
                ) == Err::<(Seq<i64>, Seq<U256>), AMMError>(e),
            },
    {
        let mut tick_cumulatives: Vec<i64> = Vec::new();
        let mut seconds_per_liquidity_cumulative_x128s: Vec<U256> = Vec::new();
        let mut k: usize = 0;
        while k < seconds_agos.len()
            invariant
                k <= seconds_agos@.len(),
                cardinality > 0,
                observe_spec(
                    self@,
                    time,
                    seconds_agos@,
                    tick,
                    index,
                    liquidity,
                    cardinality,
                    k as nat,
                ) == Ok::<(Seq<i64>, Seq<U256>), AMMError>(
                    (tick_cumulatives@, seconds_per_liquidity_cumulative_x128s@),
                ),
            decreases seconds_agos@.len() - k,
        {
            match self.observe_single(time, seconds_agos[k], tick, index, liquidity, cardinality) {
                Ok(one) => {
                    tick_cumulatives.push(one.0);
                    seconds_per_liquidity_cumulative_x128s.push(one.1);
                },
                Err(e) => {
                    proof {
                        lemma_observe_error_stays(
                            self@,
                            time,
                            seconds_agos@,
                            tick,
                            index,
                            liquidity,
                            cardinality,
                            (k + 1) as nat,
                            seconds_agos@.len(),
                        );
                    }
                    return Err(e);
                },
            }
            k = k + 1;
        }
        Ok((tick_cumulatives, seconds_per_liquidity_cumulative_x128s))
    }
}

impl UniswapV3Pool {
    /// Transforms a previous observation into a new one; see
    /// [`transform_spec`].
    pub fn observation_transform(
        last: &Observation,
        block_timestamp: u32,
        tick: i32,
        liquidity: u128,
    ) -> (r: Observation)
        ensures
            r == transform_spec(*last, block_timestamp, tick, liquidity),
    {
        transform(last, block_timestamp, tick, liquidity)
    }

    /// Initializes the pool's ring of observations at `time`; see
    /// [`Observations::initialize`].
    pub fn observation_initialize(&mut self, time: u32) -> (r: (u16, u16))
        ensures
            r == (1u16, 1u16),
            final(self)@ == (PoolView {
                observations: save_spec(old(self)@.observations, 0, initial_observation(time)),
                ..old(self)@
            }),
    {
        self.observations.initialize(time)
    }

    /// Writes an observation to the pool's ring; see [`write_spec`].
    pub fn observation_write(
        &mut self,
        index: u16,
        block_timestamp: u32,
        tick: i32,
        liquidity: u128,
        cardinality: u16,
        cardinality_next: u16,
    ) -> (r: (u16, u16))
        requires
            writable_spec(old(self)@.observations, index, block_timestamp, cardinality),
        ensures
            (final(self)@.observations, r.0, r.1) == write_spec(
                old(self)@.observations,
                index,
                block_timestamp,
                tick,
                liquidity,
                cardinality,
                cardinality_next,
            ),
            final(self)@ == (PoolView {
                observations: final(self)@.observations,
                ..old(self)@
            }),
    {
        self.observations.write(
            index,
            block_timestamp,
            tick,
            liquidity,
            cardinality,
            cardinality_next,
        )
    }

    /// Prepares the pool's ring to hold `next` observations; see
    /// [`grow_spec`].
    pub fn observation_grow(&mut self, current: u16, next: u16) -> (r: u16)
        requires
            current > 0,
        ensures
            r == (if next <= current {
                current
            } else {
                next
            }),
            final(self)@ == (PoolView {
                observations: grow_spec(old(self)@.observations, current, next),
                ..old(self)@
            }),
    {
        self.observations.grow(current, next)
    }

    /// Compares two 32-bit timestamps with wrap-around; see [`lte_spec`].
    pub fn lte(time: u32, a: u32, b: u32) -> (r: bool)
        ensures
            r == lte_spec(time, a, b),
    {
        lte(time, a, b)
    }

    /// Searches the pool's ring for the observations around `target`; see
    /// [`binary_search_spec`].
    pub fn binary_search(&self, time: u32, target: u32, index: u16, cardinality: u16) -> (r:
        Option<(Observation, Observation)>)
        requires
            cardinality > 0,
        ensures
            r == binary_search_spec(
                self@.observations,
                time,
                target,
                (index + 1) % (cardinality as int),
                (index + 1) % (cardinality as int) + cardinality - 1,
                cardinality as int,
            ),
    {
        self.observations.binary_search(time, target, index, cardinality)
    }

    /// The observations of the pool's ring at or before and at or after
    /// `target`; see [`surrounding_observations_spec`].
    pub fn get_surrounding_observations(
        &self,
        time: u32,
        target: u32,
        tick: i32,
        index: u16,
        liquidity: u128,
        cardinality: u16,
    ) -> (r: Result<(Observation, Observation), AMMError>)
        requires
            cardinality > 0,
        ensures
            r == surrounding_observations_spec(
                self@.observations,
                time,
                target,
                tick,
                index,
                liquidity,
                cardinality,
            ),
    {
        self.observations.get_surrounding_observations(
            time,
            target,
            tick,
            index,
            liquidity,
            cardinality,
        )
    }

    /// The accumulators as of `seconds_ago` before `time`, from the pool's
    /// ring; see [`observe_single_spec`].
    pub fn observe_single(
        &self,
        time: u32,
        seconds_ago: u32,
        tick: i32,
        index: u16,
        liquidity: u128,
        cardinality: u16,
    ) -> (r: Result<(i64, U256), AMMError>)
        requires
            seconds_ago == 0 || cardinality > 0,
        ensures
            r == observe_single_spec(
                self@.observations,
                time,
                seconds_ago,
                tick,
                index,
                liquidity,
                cardinality,
            ),
    {
        self.observations.observe_single(time, seconds_ago, tick, index, liquidity, cardinality)
    }

    /// The accumulators as of each of `seconds_agos` before `time`, from the
    /// pool's ring; see [`observe_spec`].
    pub fn observe(
        &self,
        time: u32,
        seconds_agos: &[u32],
        tick: i32,
        index: u16,
        liquidity: u128,
        cardinality: u16,
    ) -> (r: Result<(Vec<i64>, Vec<U256>), AMMError>)
        requires
            cardinality > 0,
        ensures
            match r {
                Ok(v) => observe_spec(
                    self@.observations,
                    time,
                    seconds_agos@,
                    tick,
                    index,
                    liquidity,
                    cardinality,
                    seconds_agos@.len(),
                ) == Ok::<(Seq<i64>, Seq<U256>), AMMError>((v.0@, v.1@)),
                Err(e) => observe_spec(
                    self@.observations,
                    time,
                    seconds_agos@,
                    tick,
                    index,
                    liquidity,
                    cardinality,
                    seconds_agos@.len(),
                ) == Err::<(Seq<i64>, Seq<U256>), AMMError>(e),
            },
    {
        self.observations.observe(time, seconds_agos, tick, index, liquidity, cardinality)
    }
}

/// Right after a write at `time`, the latest accumulators as of `time` are
/// those of the observation at the written index, whatever tick and
/// liquidity the query names; and that observation is the transform of the
/// one before, or the one before itself where it was from `time` already.
pub proof fn lemma_observe_after_write(
    ring: Seq<Observation>,
    index: u16,
    time: u32,
    tick: i32,
    liquidity: u128,
    cardinality: u16,
    cardinality_next: u16,
    query_tick: i32,
    query_liquidity: u128,
)
    requires
        cardinality > 0,
    ensures
        ({
            let written = write_spec(
                ring,
                index,
                time,
                tick,
                liquidity,
                cardinality,
                cardinality_next,
            );
            let last = observation_at(ring, index as int);
            let latest = observation_at(written.0, written.1 as int);
            &&& latest == (if last.block_timestamp == time {
                last
            } else {
                transform_spec(last, time, tick, liquidity)
            })
            &&& observe_single_spec(
                written.0,
                time,
                0,
                query_tick,
                written.1,
                query_liquidity,
                written.2,
            ) == Ok::<(i64, U256), AMMError>(
                (latest.tick_cumulative, latest.seconds_per_liquidity_cumulative_x128),
            )
        }),
{
    let last = observation_at(ring, index as int);
    if last.block_timestamp != time {
        let slot = next_slot_spec(index, cardinality, cardinality_next);
        lemma_save_reads(ring, slot.0 as int, transform_spec(last, time, tick, liquidity), slot.0 as int);
    }
}

/// After a slot has been written, it reads as written and every other slot
/// reads as before.
pub proof fn lemma_save_reads(ring: Seq<Observation>, index: int, value: Observation, other: int)
    requires
        0 <= index,
    ensures
        observation_at(save_spec(ring, index, value), other) == (if other == index {
            value
        } else {
            observation_at(ring, other)
        }),
{
}

/// Growing the ring leaves every slot below the current size as it is.
pub proof fn lemma_grow_keeps_written(ring: Seq<Observation>, current: u16, next: u16, slot: int)
    requires
        0 <= slot < current,
    ensures
        observation_at(grow_spec(ring, current, next), slot) == observation_at(ring, slot),
    decreases next - current,
{
    if next > current {
        lemma_grow_keeps_written(ring, current, (next - 1) as u16, slot);
        lemma_save_reads(
            grow_spec(ring, current, (next - 1) as u16),
            next - 1,
            Observation::prepared(),
            slot,
        );
    }
}

/// A transformed observation has its accumulators within their widths,
/// whatever the observation before held.
pub proof fn lemma_transform_valid(last: Observation, block_timestamp: u32, tick: i32, liquidity: u128)
    ensures
        transform_spec(last, block_timestamp, tick, liquidity).wf(),
{
    let delta = wrap_u32(block_timestamp - last.block_timestamp);
    let sum = (last.seconds_per_liquidity_cumulative_x128@ + u256_from_nat(
        seconds_per_liquidity_spec(delta, liquidity),
    )@) as int;
    crate::primitives::wrapping::lemma_mod_of_mod(sum);
    crate::primitives::u256::lemma_from_nat(wrap_u160(sum));
}

/// Writing an observation within its widths to a slot keeps a valid ring
/// valid.
pub proof fn lemma_save_valid(ring: Seq<Observation>, index: int, value: Observation)
    requires
        0 <= index,
        ring_valid(ring),
        value.wf(),
    ensures
        ring_valid(save_spec(ring, index, value)),
{
    lemma_halves(U256 { l0: 0, l1: 0, l2: 0, l3: 0 });
    assert(Observation::empty().wf());
}

/// A write keeps a valid ring valid.
pub proof fn lemma_write_valid(
    ring: Seq<Observation>,
    index: u16,
    block_timestamp: u32,
    tick: i32,
    liquidity: u128,
    cardinality: u16,
    cardinality_next: u16,
)
    requires
        ring_valid(ring),
        writable_spec(ring, index, block_timestamp, cardinality),
    ensures
        ring_valid(
            write_spec(
                ring,
                index,
                block_timestamp,
                tick,
                liquidity,
                cardinality,
                cardinality_next,
            ).0,
        ),
{
    let last = observation_at(ring, index as int);
    if last.block_timestamp != block_timestamp {
        lemma_transform_valid(last, block_timestamp, tick, liquidity);
        lemma_save_valid(
            ring,
            next_slot_spec(index, cardinality, cardinality_next).0 as int,
            transform_spec(last, block_timestamp, tick, liquidity),
        );
    }
}

/// Growing a valid ring keeps it valid.
pub proof fn lemma_grow_valid(ring: Seq<Observation>, current: u16, next: u16)
    requires
        ring_valid(ring),
    ensures
        ring_valid(grow_spec(ring, current, next)),
    decreases next - current,
{
    if next > current {
        lemma_grow_valid(ring, current, (next - 1) as u16);
        lemma_halves(U256 { l0: 0, l1: 0, l2: 0, l3: 0 });
        lemma_save_valid(
            grow_spec(ring, current, (next - 1) as u16),
            next - 1,
            Observation::prepared(),
        );
    }
}

/// The latest accumulators of a valid ring are within their widths.
pub proof fn lemma_observe_latest_valid(
    ring: Seq<Observation>,
    time: u32,
    tick: i32,
    index: u16,
    liquidity: u128,
)
    requires
        ring_valid(ring),
    ensures
        is_i56(observe_latest_spec(ring, time, tick, index, liquidity).0 as int),
        is_u160(observe_latest_spec(ring, time, tick, index, liquidity).1@),
{
    let last = observation_at(ring, index as int);
    lemma_halves(U256 { l0: 0, l1: 0, l2: 0, l3: 0 });
    lemma_transform_valid(last, time, tick, liquidity);
}

/// The observations in the slots `i` and `i + 1` of the unrolled ring.
pub open spec fn pair_at(ring: Seq<Observation>, i: int, cardinality: int) -> (
    Observation,
    Observation,
) {
    (observation_at(ring, i % cardinality), observation_at(ring, (i + 1) % cardinality))
}

/// The pair that the binary search finds surrounds the target: the first
/// observation is written and at or before the target, the second is at or
/// after it, and the two stand in adjacent slots of the searched range.
pub proof fn lemma_binary_search_surrounds(
    ring: Seq<Observation>,
    time: u32,
    target: u32,
    l: int,
    r: int,
    cardinality: int,
)
    requires
        binary_search_spec(ring, time, target, l, r, cardinality) is Some,
    ensures
        ({
            let found = binary_search_spec(ring, time, target, l, r, cardinality)->Some_0;
            &&& found.0.initialized
            &&& lte_spec(time, found.0.block_timestamp, target)
            &&& lte_spec(time, target, found.1.block_timestamp)
            &&& exists|i: int| l <= i <= r && found == #[trigger] pair_at(ring, i, cardinality)
        }),
    decreases r - l + 1,
{
    let i = (l + r) / 2;
    let before_or_at = observation_at(ring, i % cardinality);
    let found = binary_search_spec(ring, time, target, l, r, cardinality)->Some_0;
    let at_or_after = observation_at(ring, (i + 1) % cardinality);
    let target_at_or_after = lte_spec(time, before_or_at.block_timestamp, target);
    if before_or_at.initialized && target_at_or_after && lte_spec(
        time,
        target,
        at_or_after.block_timestamp,
    ) {
        assert(l <= i <= r && found == pair_at(ring, i, cardinality));
    } else if before_or_at.initialized && !target_at_or_after {
        lemma_binary_search_surrounds(ring, time, target, l, i - 1, cardinality);
        let j = choose|j: int| l <= j <= i - 1 && found == #[trigger] pair_at(ring, j, cardinality);
        assert(l <= j <= r && found == pair_at(ring, j, cardinality));
    } else {
        lemma_binary_search_surrounds(ring, time, target, i + 1, r, cardinality);
        let j = choose|j: int| i + 1 <= j <= r && found == #[trigger] pair_at(ring, j, cardinality);
        assert(l <= j <= r && found == pair_at(ring, j, cardinality));
    }
}

/// Once a prefix of the queries fails, every longer prefix fails with the same error.
pub proof fn lemma_observe_error_stays(
    ring: Seq<Observation>,
    time: u32,
    seconds_agos: Seq<u32>,
    tick: i32,
    index: u16,
    liquidity: u128,
    cardinality: u16,
    failed: nat,
    count: nat,
)
    requires
        failed <= count,
        observe_spec(ring, time, seconds_agos, tick, index, liquidity, cardinality, failed) is Err,
    ensures
        observe_spec(ring, time, seconds_agos, tick, index, liquidity, cardinality, count)
            == observe_spec(ring, time, seconds_agos, tick, index, liquidity, cardinality, failed),
    decreases count,
{
    if count > failed {
        lemma_observe_error_stays(
            ring,
            time,
            seconds_agos,
            tick,
            index,
            liquidity,
            cardinality,
            failed,
            (count - 1) as nat,
        );
    }
}

/// The first observation of a pool.
pub open spec fn initial_observation(time: u32) -> Observation {
    Observation {
        block_timestamp: time,
        tick_cumulative: 1,
        seconds_per_liquidity_cumulative_x128: U256 { l0: 0, l1: 0, l2: 0, l3: 0 },
        initialized: true,
    }
}

/// The index written next and the cardinality in force; see [`next_slot_spec`].
pub fn next_slot(index: u16, cardinality: u16, cardinality_next: u16) -> (r: (u16, u16))
    requires
        cardinality > 0,
    ensures
        r == next_slot_spec(index, cardinality, cardinality_next),
{
    let cardinality_updated: u16 = if cardinality_next > cardinality && index == cardinality - 1 {
        cardinality_next
    } else {
        cardinality
    };
    let index_updated: u32 = (index as u32 + 1) % (cardinality_updated as u32);
    (index_updated as u16, cardinality_updated)
}

/// The quotient of a signed dividend and a positive divisor, rounded towards zero.
fn signed_div(a: i64, b: u32) -> (r: i64)
    requires
        b > 0,
    ensures
        r == div_towards_zero(a as int, b as int),
        -0x8000_0000_0000_0000 <= r <= 0x7fff_ffff_ffff_ffff,
{
    if a >= 0 {
        proof {
            vstd::arithmetic::div_mod::lemma_div_is_ordered_by_denominator(a as int, 1, b as int);
            vstd::arithmetic::div_mod::lemma_div_pos_is_pos(a as int, b as int);
        }
        ((a as u64) / (b as u64)) as i64
    } else {
        let m: u64 = if a == i64::MIN {
            0x8000_0000_0000_0000u64
        } else {
            (-a) as u64
        };
        proof {
            vstd::arithmetic::div_mod::lemma_div_is_ordered_by_denominator(m as int, 1, b as int);
            vstd::arithmetic::div_mod::lemma_div_pos_is_pos(m as int, b as int);
        }
        let q: u64 = m / (b as u64);
        if q == 0x8000_0000_0000_0000u64 {
            i64::MIN
        } else {
            -(q as i64)
        }
    }
}

/// Interpolates the accumulators at `target`; see [`interpolate_spec`].
pub fn interpolate(before_or_at: Observation, at_or_after: Observation, target: u32) -> (r:
    Result<(i64, U256), AMMError>)
    ensures
        r == interpolate_spec(before_or_at, at_or_after, target),
{
    broadcast use lemma_from_nat_view;

    if target == before_or_at.block_timestamp {
        return Ok(
            (before_or_at.tick_cumulative, before_or_at.seconds_per_liquidity_cumulative_x128),
        );
    }
    if target == at_or_after.block_timestamp {
        return Ok((at_or_after.tick_cumulative, at_or_after.seconds_per_liquidity_cumulative_x128));
    }
    let observation_time_delta: u32 = wrapping_sub_u32(
        at_or_after.block_timestamp,
        before_or_at.block_timestamp,
    );
    let target_delta: u32 = wrapping_sub_u32(target, before_or_at.block_timestamp);
    if observation_time_delta == 0 {
        return Err(AMMError::ArithmeticError(ArithmeticError::MulDivError));
    }
    let tick_growth: i64 = wrap_to_i56(
        at_or_after.tick_cumulative as i128 - before_or_at.tick_cumulative as i128,
    );
    let tick_rate: i64 = wrap_to_i56(signed_div(tick_growth, observation_time_delta) as i128);
    assert(-0x80_0000_0000_0000 * 0x1_0000_0000 <= tick_rate * target_delta <= 0x80_0000_0000_0000
        * 0x1_0000_0000) by (nonlinear_arith)
        requires
            -0x80_0000_0000_0000 <= tick_rate < 0x80_0000_0000_0000,
            0 <= target_delta < 0x1_0000_0000,
    ;
    let tick_moved: i64 = wrap_to_i56((tick_rate as i128) * (target_delta as i128));
    let tick_cumulative: i64 = wrap_to_i56(
        before_or_at.tick_cumulative as i128 + tick_moved as i128,
    );
    let growth: U256 = wrapping_sub_u160(
        at_or_after.seconds_per_liquidity_cumulative_x128,
        before_or_at.seconds_per_liquidity_cumulative_x128,
    );
    proof {
        lemma_two_pows();
        assert(growth@ * target_delta < two_pow_256()) by (nonlinear_arith)
            requires
                growth@ < two_pow_160(),
                target_delta < 0x1_0000_0000,
                two_pow_256() == two_pow_160() * 0x1_0000_0000_0000_0000_0000_0000,
        ;
    }
    let product: U256 = match growth.checked_mul(U256::from_u64(target_delta as u64)) {
        Some(p) => p.low_160(),
        None => {
            assert(false);
            U256::zero()
        },
    };
    let share: U256 = match product.checked_div_rem(U256::from_u64(observation_time_delta as u64)) {
        Some(qr) => qr.0,
        None => {
            assert(false);
            U256::zero()
        },
    };
    Ok(
        (
            tick_cumulative,
            wrapping_add_u160(before_or_at.seconds_per_liquidity_cumulative_x128, share),
        ),
    )
}

} // verus!
