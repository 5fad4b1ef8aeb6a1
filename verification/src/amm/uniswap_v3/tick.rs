//! Per-tick liquidity and fee-growth bookkeeping.

use std::collections::HashMap;
use vstd::prelude::*;

use crate::amm::uniswap_v3::layout::{
    bits_of_i128, flag, i128_bits, i128_from_bits, i128_of_bits, i56_bits, i56_from_bits,
    i56_of_bits, low_56_bits, two_pow,
};
use crate::amm::uniswap_v3::liquidity_math::{add_delta, add_delta_spec};
use crate::amm::uniswap_v3::pool::{PoolView, UniswapV3Pool};
use crate::errors::{AMMError, ArithmeticError, LogicError};
use crate::primitives::wrapping::{
    is_i56, is_u160, lemma_mod_of_mod, lemma_sub_i56_twice, lemma_sub_mod_twice,
    lemma_sub_u160_twice, lemma_sub_u256_twice, sub_u160, sub_u256, wrap_i56, wrap_u160, wrap_u32,
    wrapping_sub_i56, wrapping_sub_u160, wrapping_sub_u256, wrapping_sub_u32,
};
use crate::primitives::u256::{lemma_from_nat, lemma_from_nat_view, lemma_halves, u256_from_nat};
use crate::primitives::U256;

verus! {

broadcast use vstd::std_specs::hash::group_hash_axioms;

/// What the pool records at one tick.
///
/// The "outside" values are the growth on the other side of this tick
/// relative to the current tick.
#[derive(Clone, Copy, Debug, PartialEq, Eq, Structural)]
pub struct Tick {
    pub liquidity_gross: u128,
    pub liquidity_net: i128,
    pub fee_growth_outside_0_x128: U256,
    pub fee_growth_outside_1_x128: U256,
    pub tick_cumulative_outside: i64,
    pub seconds_per_liquidity_outside_x128: U256,
    pub seconds_outside: u32,
    pub initialized: bool,
}

/// The global accumulators that a tick update or crossing reads.
#[derive(Clone, Copy, Debug, PartialEq, Eq, Structural)]
pub struct Accumulators {
    pub fee_growth_global_0_x128: U256,
    pub fee_growth_global_1_x128: U256,
    pub seconds_per_liquidity_cumulative_x128: U256,
    pub tick_cumulative: i64,
    pub time: u32,
}

impl Accumulators {
    /// Whether the accumulators are within their widths: the tick
    /// accumulator in 56 bits with a sign, seconds per liquidity in 160.
    pub open spec fn wf(self) -> bool {
        is_i56(self.tick_cumulative as int) && is_u160(
            self.seconds_per_liquidity_cumulative_x128@,
        )
    }
}

impl Tick {
    /// Whether the record's accumulators are within their widths: the tick
    /// accumulator in 56 bits with a sign, seconds per liquidity in 160.
    pub open spec fn wf(self) -> bool {
        is_i56(self.tick_cumulative_outside as int) && is_u160(
            self.seconds_per_liquidity_outside_x128@,
        )
    }

    /// The record of a tick that was never referenced.
    pub open spec fn empty() -> Tick {
        Tick {
            liquidity_gross: 0,
            liquidity_net: 0,
            fee_growth_outside_0_x128: U256 { l0: 0, l1: 0, l2: 0, l3: 0 },
            fee_growth_outside_1_x128: U256 { l0: 0, l1: 0, l2: 0, l3: 0 },
            tick_cumulative_outside: 0,
            seconds_per_liquidity_outside_x128: U256 { l0: 0, l1: 0, l2: 0, l3: 0 },
            seconds_outside: 0,
            initialized: false,
        }
    }

    /// The record of a tick that was never referenced.
    pub fn new() -> (r: Tick)
        ensures
            r == Tick::empty(),
            r.wf(),
    {
        proof {
            lemma_halves(U256 { l0: 0, l1: 0, l2: 0, l3: 0 });
        }
        Tick {
            liquidity_gross: 0,
            liquidity_net: 0,
            fee_growth_outside_0_x128: U256 { l0: 0, l1: 0, l2: 0, l3: 0 },
            fee_growth_outside_1_x128: U256 { l0: 0, l1: 0, l2: 0, l3: 0 },
            tick_cumulative_outside: 0,
            seconds_per_liquidity_outside_x128: U256 { l0: 0, l1: 0, l2: 0, l3: 0 },
            seconds_outside: 0,
            initialized: false,
        }
    }

    /// The record after a liquidity change of `liquidity_delta` that references
    /// this tick as a lower (`upper == false`) or upper boundary, and whether
    /// the tick went from unreferenced to referenced or back.
    ///
    /// A tick that was unreferenced takes the global accumulators as its
    /// outside values when it lies at or below the current tick: all growth so
    /// far counts as having happened below it.
    pub open spec fn update_spec(
        self,
        tick: i32,
        tick_current: i32,
        liquidity_delta: i128,
        acc: Accumulators,
        upper: bool,
        max_liquidity: u128,
    ) -> Result<(Tick, bool), AMMError> {
        match add_delta_spec(self.liquidity_gross, liquidity_delta) {
            Err(e) => Err(e),
            Ok(gross_after) => {
                let net: int = if upper {
                    self.liquidity_net - liquidity_delta
                } else {
                    self.liquidity_net + liquidity_delta
                };
                if gross_after > max_liquidity {
                    Err(AMMError::LogicError(LogicError::LiquidityOverMax))
                } else if net < i128::MIN || net > i128::MAX {
                    Err(AMMError::ArithmeticError(ArithmeticError::Overflow))
                } else {
                    let seeded: Tick = if self.liquidity_gross != 0 {
                        self
                    } else if tick <= tick_current {
                        Tick {
                            fee_growth_outside_0_x128: acc.fee_growth_global_0_x128,
                            fee_growth_outside_1_x128: acc.fee_growth_global_1_x128,
                            seconds_per_liquidity_outside_x128:
                                acc.seconds_per_liquidity_cumulative_x128,
                            tick_cumulative_outside: acc.tick_cumulative,
                            seconds_outside: acc.time,
                            initialized: true,
                            ..self
                        }
                    } else {
                        Tick { initialized: true, ..self }
                    };
                    Ok(
                        (
                            Tick {
                                liquidity_gross: gross_after,
                                liquidity_net: net as i128,
                                ..seeded
                            },
                            (gross_after == 0) != (self.liquidity_gross == 0),
                        ),
                    )
                }
            },
        }
    }

    /// Applies a liquidity change to this tick's record; see [`Tick::update_spec`].
    pub fn update(
        self,
        tick: i32,
        tick_current: i32,
        liquidity_delta: i128,
        acc: Accumulators,
        upper: bool,
        max_liquidity: u128,
    ) -> (r: Result<(Tick, bool), AMMError>)
        ensures
            r == self.update_spec(tick, tick_current, liquidity_delta, acc, upper, max_liquidity),
            self.wf() && acc.wf() ==> (r matches Ok(updated) ==> updated.0.wf()),
    {
        let gross_before: u128 = self.liquidity_gross;
        let gross_after: u128 = match add_delta(gross_before, liquidity_delta) {
            Ok(g) => g,
            Err(e) => {
                return Err(e);
            },
        };
        if gross_after > max_liquidity {
            return Err(AMMError::LogicError(LogicError::LiquidityOverMax));
        }
        let net: Option<i128> = if upper {
            self.liquidity_net.checked_sub(liquidity_delta)
        } else {
            self.liquidity_net.checked_add(liquidity_delta)
        };
        let liquidity_net: i128 = match net {
            Some(n) => n,
            None => {
                return Err(AMMError::ArithmeticError(ArithmeticError::Overflow));
            },
        };
        let flipped: bool = (gross_after == 0) != (gross_before == 0);
        let mut info: Tick = self;
        if gross_before == 0 {
            if tick <= tick_current {
                info.fee_growth_outside_0_x128 = acc.fee_growth_global_0_x128;
                info.fee_growth_outside_1_x128 = acc.fee_growth_global_1_x128;
                info.seconds_per_liquidity_outside_x128 = acc.seconds_per_liquidity_cumulative_x128;
                info.tick_cumulative_outside = acc.tick_cumulative;
                info.seconds_outside = acc.time;
            }
            info.initialized = true;
        }
        info.liquidity_gross = gross_after;
        info.liquidity_net = liquidity_net;
        Ok((info, flipped))
    }

    /// The record after the price has crossed this tick: every "outside" value
    /// becomes the global value minus itself, wrapped to its width.
    pub open spec fn cross_spec(self, acc: Accumulators) -> Tick {
        Tick {
            fee_growth_outside_0_x128: sub_u256(
                acc.fee_growth_global_0_x128,
                self.fee_growth_outside_0_x128,
            ),
            fee_growth_outside_1_x128: sub_u256(
                acc.fee_growth_global_1_x128,
                self.fee_growth_outside_1_x128,
            ),
            seconds_per_liquidity_outside_x128: sub_u160(
                acc.seconds_per_liquidity_cumulative_x128,
                self.seconds_per_liquidity_outside_x128,
            ),
            tick_cumulative_outside: wrap_i56(
                acc.tick_cumulative - self.tick_cumulative_outside,
            ) as i64,
            seconds_outside: wrap_u32(acc.time - self.seconds_outside) as u32,
            ..self
        }
    }

    /// Flips the outside values to the other side; see [`Tick::cross_spec`].
    pub fn cross(self, acc: Accumulators) -> (r: Tick)
        ensures
            r == self.cross_spec(acc),
            r.wf(),
    {
        Tick {
            liquidity_gross: self.liquidity_gross,
            liquidity_net: self.liquidity_net,
            fee_growth_outside_0_x128: wrapping_sub_u256(
                acc.fee_growth_global_0_x128,
                self.fee_growth_outside_0_x128,
            ),
            fee_growth_outside_1_x128: wrapping_sub_u256(
                acc.fee_growth_global_1_x128,
                self.fee_growth_outside_1_x128,
            ),
            tick_cumulative_outside: wrapping_sub_i56(
                acc.tick_cumulative,
                self.tick_cumulative_outside,
            ),
            seconds_per_liquidity_outside_x128: wrapping_sub_u160(
                acc.seconds_per_liquidity_cumulative_x128,
                self.seconds_per_liquidity_outside_x128,
            ),
            seconds_outside: wrapping_sub_u32(acc.time, self.seconds_outside),
            initialized: self.initialized,
        }
    }
}

/// A crossed record has its accumulators within their widths, whatever
/// the record before held.
pub proof fn lemma_cross_valid(tick: Tick, acc: Accumulators)
    ensures
        tick.cross_spec(acc).wf(),
{
    lemma_mod_of_mod(
        acc.seconds_per_liquidity_cumulative_x128@ - tick.seconds_per_liquidity_outside_x128@,
    );
    lemma_from_nat(
        wrap_u160(
            acc.seconds_per_liquidity_cumulative_x128@
                - tick.seconds_per_liquidity_outside_x128@,
        ),
    );
}

/// An update keeps the accumulators of a record within their widths,
/// where those that it is handed are within theirs.
pub proof fn lemma_update_valid(
    before: Tick,
    tick: i32,
    tick_current: i32,
    liquidity_delta: i128,
    acc: Accumulators,
    upper: bool,
    max_liquidity: u128,
)
    requires
        before.wf(),
        acc.wf(),
        before.update_spec(tick, tick_current, liquidity_delta, acc, upper, max_liquidity) is Ok,
    ensures
        (before.update_spec(
            tick,
            tick_current,
            liquidity_delta,
            acc,
            upper,
            max_liquidity,
        )->Ok_0).0.wf(),
{
}

/// Crossing a tick twice at the same accumulators gives back its record,
/// where the record's accumulators are within their widths.
pub proof fn lemma_cross_twice(tick: Tick, acc: Accumulators)
    requires
        tick.wf(),
    ensures
        tick.cross_spec(acc).cross_spec(acc) == tick,
        tick.cross_spec(acc).wf(),
{
    lemma_sub_u256_twice(acc.fee_growth_global_0_x128, tick.fee_growth_outside_0_x128);
    lemma_sub_u256_twice(acc.fee_growth_global_1_x128, tick.fee_growth_outside_1_x128);
    lemma_sub_u160_twice(
        acc.seconds_per_liquidity_cumulative_x128,
        tick.seconds_per_liquidity_outside_x128,
    );
    lemma_sub_mod_twice(acc.time as int, tick.seconds_outside as int, 0x1_0000_0000);
    lemma_sub_i56_twice(acc.tick_cumulative as int, tick.tick_cumulative_outside as int);
    lemma_mod_of_mod(
        acc.seconds_per_liquidity_cumulative_x128@ - tick.seconds_per_liquidity_outside_x128@,
    );
    lemma_from_nat(
        wrap_u160(
            acc.seconds_per_liquidity_cumulative_x128@
                - tick.seconds_per_liquidity_outside_x128@,
        ),
    );
}

/// The four storage words of a tick's record: the net liquidity above the
/// gross liquidity; the two fee growths; and, from the low bits up, the
/// tick accumulator in 56 bits, seconds per liquidity in 160, the seconds
/// in 32, and the initialized flag.
pub open spec fn tick_words_spec(tick: Tick) -> Seq<nat> {
    seq![
        i128_bits(tick.liquidity_net) * two_pow(128) + tick.liquidity_gross as nat,
        tick.fee_growth_outside_0_x128@,
        tick.fee_growth_outside_1_x128@,
        i56_bits(tick.tick_cumulative_outside) + (tick.seconds_per_liquidity_outside_x128@
            % two_pow(160)) * two_pow(56) + (tick.seconds_outside as nat) * two_pow(216) + flag(
            tick.initialized,
        ) * two_pow(248),
    ]
}

/// The record that four storage words hold; a record counts as
/// initialized where its top byte is not zero.
pub open spec fn tick_from_words_spec(w0: U256, w1: U256, w2: U256, w3: U256) -> Tick {
    Tick {
        liquidity_gross: (w0@ % two_pow(128)) as u128,
        liquidity_net: i128_from_bits(w0@ / two_pow(128)) as i128,
        fee_growth_outside_0_x128: w1,
        fee_growth_outside_1_x128: w2,
        tick_cumulative_outside: i56_from_bits(w3@ % two_pow(56)) as i64,
        seconds_per_liquidity_outside_x128: u256_from_nat((w3@ / two_pow(56)) % two_pow(160)),
        seconds_outside: ((w3@ / two_pow(216)) % two_pow(32)) as u32,
        initialized: w3@ / two_pow(248) != 0,
    }
}

/// The words of a record hold the record, where its accumulators are
/// within their widths.
pub proof fn lemma_tick_words_round_trip(tick: Tick, w0: U256, w1: U256, w2: U256, w3: U256)
    requires
        tick.wf(),
        w0@ == tick_words_spec(tick)[0],
        w1@ == tick_words_spec(tick)[1],
        w2@ == tick_words_spec(tick)[2],
        w3@ == tick_words_spec(tick)[3],
    ensures
        tick_from_words_spec(w0, w1, w2, w3) == tick,
{
    crate::primitives::u256::lemma_view_injective(w1, tick.fee_growth_outside_0_x128);
    crate::primitives::u256::lemma_view_injective(w2, tick.fee_growth_outside_1_x128);
    let spl = tick.seconds_per_liquidity_outside_x128@ as int;
    let bits = i56_bits(tick.tick_cumulative_outside) as int;
    let seconds = tick.seconds_outside as int;
    let top = flag(tick.initialized) as int;
    vstd::arithmetic::div_mod::lemma_small_mod(spl as nat, two_pow(160));
    vstd::arithmetic::div_mod::lemma_fundamental_div_mod_converse(
        w0@ as int,
        two_pow(128) as int,
        i128_bits(tick.liquidity_net) as int,
        tick.liquidity_gross as int,
    );
    if tick.tick_cumulative_outside >= 0 {
        vstd::arithmetic::div_mod::lemma_fundamental_div_mod_converse(
            tick.tick_cumulative_outside as int,
            0x100_0000_0000_0000,
            0,
            tick.tick_cumulative_outside as int,
        );
    } else {
        vstd::arithmetic::div_mod::lemma_fundamental_div_mod_converse(
            tick.tick_cumulative_outside as int,
            0x100_0000_0000_0000,
            -1,
            tick.tick_cumulative_outside + 0x100_0000_0000_0000,
        );
    }
    let word = w3@ as int;
    let above_56 = spl + seconds * two_pow(160) + top * 0x1_0000_0000_0000_0000_0000_0000_0000_0000_0000_0000_0000_0000;
    vstd::arithmetic::div_mod::lemma_fundamental_div_mod_converse(
        word,
        two_pow(56) as int,
        above_56,
        bits,
    );
    vstd::arithmetic::div_mod::lemma_fundamental_div_mod_converse(
        above_56,
        two_pow(160) as int,
        seconds + top * 0x1_0000_0000,
        spl,
    );
    vstd::arithmetic::div_mod::lemma_fundamental_div_mod_converse(
        word,
        two_pow(216) as int,
        seconds + top * 0x1_0000_0000,
        bits + spl * two_pow(56),
    );
    vstd::arithmetic::div_mod::lemma_fundamental_div_mod_converse(
        seconds + top * 0x1_0000_0000,
        two_pow(32) as int,
        top,
        seconds,
    );
    vstd::arithmetic::div_mod::lemma_fundamental_div_mod_converse(
        word,
        two_pow(248) as int,
        top,
        bits + spl * two_pow(56) + seconds * two_pow(216),
    );
    crate::primitives::u256::lemma_from_nat_view(tick.seconds_per_liquidity_outside_x128);
}

impl Tick {
    /// Packs the record into its four storage words; see [`tick_words_spec`].
    pub fn encode_storage(&self) -> (r: [U256; 4])
        ensures
            r[0]@ == tick_words_spec(*self)[0],
            r[1]@ == tick_words_spec(*self)[1],
            r[2]@ == tick_words_spec(*self)[2],
            r[3]@ == tick_words_spec(*self)[3],
    {
        let slot0: U256 = U256::from_halves(bits_of_i128(self.liquidity_net), self.liquidity_gross);
        let spl: U256 = self.seconds_per_liquidity_outside_x128.low_160();
        let tick_cumulative: u64 = low_56_bits(self.tick_cumulative_outside);
        let initialized: u64 = if self.initialized {
            1
        } else {
            0
        };
        proof {
            lemma_halves(spl);
            assert(spl.l3 == 0 && spl.l2 < 0x1_0000_0000) by {
                if spl.l3 != 0 || spl.l2 >= 0x1_0000_0000 {
                    assert(spl@ >= two_pow(160));
                }
            }
        }
        let l0: u64 = tick_cumulative + (spl.l0 % 256) * 0x100_0000_0000_0000u64;
        let l1: u64 = spl.l0 / 256 + (spl.l1 % 256) * 0x100_0000_0000_0000u64;
        let l2: u64 = spl.l1 / 256 + (spl.l2 % 256) * 0x100_0000_0000_0000u64;
        let l3: u64 = spl.l2 / 256 + (self.seconds_outside as u64) * 0x100_0000u64 + initialized
            * 0x100_0000_0000_0000u64;
        [
            slot0,
            self.fee_growth_outside_0_x128,
            self.fee_growth_outside_1_x128,
            U256 { l0, l1, l2, l3 },
        ]
    }

    /// Reads a record from its four storage words; see
    /// [`tick_from_words_spec`].
    pub fn decode_storage(data: &[U256]) -> (r: Tick)
        requires
            data@.len() == 4,
        ensures
            r == tick_from_words_spec(data@[0], data@[1], data@[2], data@[3]),
            r.wf(),
    {
        broadcast use lemma_from_nat_view;

        let w0: U256 = data[0];
        let w3: U256 = data[3];
        let tick_cumulative: u64 = w3.l0 % 0x100_0000_0000_0000u64;
        let s0: u64 = w3.l0 / 0x100_0000_0000_0000u64 + (w3.l1 % 0x100_0000_0000_0000u64) * 256;
        let s1: u64 = w3.l1 / 0x100_0000_0000_0000u64 + (w3.l2 % 0x100_0000_0000_0000u64) * 256;
        let s2: u64 = w3.l2 / 0x100_0000_0000_0000u64 + (w3.l3 % 0x100_0000u64) * 256;
        let seconds: u64 = (w3.l3 / 0x100_0000u64) % 0x1_0000_0000u64;
        let top: u64 = w3.l3 / 0x100_0000_0000_0000u64;
        let spl = U256 { l0: s0, l1: s1, l2: s2, l3: 0 };
        proof {
            lemma_halves(w0);
            let word = w3@ as int;
            let above_56: int = w3.l0 / 0x100_0000_0000_0000u64 + w3.l1 * 0x100 + w3.l2
                * 0x100_0000_0000_0000_0000 + w3.l3 * 0x100_0000_0000_0000_0000_0000_0000_0000_0000;
            vstd::arithmetic::div_mod::lemma_fundamental_div_mod_converse(
                word,
                two_pow(56) as int,
                above_56,
                tick_cumulative as int,
            );
            vstd::arithmetic::div_mod::lemma_fundamental_div_mod_converse(
                above_56,
                two_pow(160) as int,
                (w3.l3 / 0x100_0000u64) as int,
                spl@ as int,
            );
            vstd::arithmetic::div_mod::lemma_fundamental_div_mod_converse(
                word,
                two_pow(216) as int,
                (w3.l3 / 0x100_0000u64) as int,
                word - (w3.l3 / 0x100_0000u64) * two_pow(216),
            );
            vstd::arithmetic::div_mod::lemma_fundamental_div_mod_converse(
                word,
                two_pow(248) as int,
                top as int,
                word - top * two_pow(248),
            );
        }
        Tick {
            liquidity_gross: w0.low_u128(),
            liquidity_net: i128_of_bits(w0.high_u128()),
            fee_growth_outside_0_x128: data[1],
            fee_growth_outside_1_x128: data[2],
            tick_cumulative_outside: i56_of_bits(tick_cumulative),
            seconds_per_liquidity_outside_x128: spl,
            seconds_outside: seconds as u32,
            initialized: top != 0,
        }
    }
}

/// The fee growth per unit of liquidity inside the range between two ticks:
/// the global growth minus the growth below the lower tick and above the
/// upper one, all subtractions wrapping at 256 bits.
pub open spec fn fee_growth_inside_spec(
    lower: Tick,
    upper: Tick,
    tick_lower: i32,
    tick_upper: i32,
    tick_current: i32,
    fee_growth_global_0_x128: U256,
    fee_growth_global_1_x128: U256,
) -> (U256, U256) {
    let below_0 = if tick_current >= tick_lower {
        lower.fee_growth_outside_0_x128
    } else {
        sub_u256(fee_growth_global_0_x128, lower.fee_growth_outside_0_x128)
    };
    let below_1 = if tick_current >= tick_lower {
        lower.fee_growth_outside_1_x128
    } else {
        sub_u256(fee_growth_global_1_x128, lower.fee_growth_outside_1_x128)
    };
    let above_0 = if tick_current < tick_upper {
        upper.fee_growth_outside_0_x128
    } else {
        sub_u256(fee_growth_global_0_x128, upper.fee_growth_outside_0_x128)
    };
    let above_1 = if tick_current < tick_upper {
        upper.fee_growth_outside_1_x128
    } else {
        sub_u256(fee_growth_global_1_x128, upper.fee_growth_outside_1_x128)
    };
    (
        sub_u256(sub_u256(fee_growth_global_0_x128, below_0), above_0),
        sub_u256(sub_u256(fee_growth_global_1_x128, below_1), above_1),
    )
}

/// Computes the fee growth inside a range; see [`fee_growth_inside_spec`].
pub fn fee_growth_inside(
    lower: Tick,
    upper: Tick,
    tick_lower: i32,
    tick_upper: i32,
    tick_current: i32,
    fee_growth_global_0_x128: U256,
    fee_growth_global_1_x128: U256,
) -> (r: (U256, U256))
    ensures
        r == fee_growth_inside_spec(
            lower,
            upper,
            tick_lower,
            tick_upper,
            tick_current,
            fee_growth_global_0_x128,
            fee_growth_global_1_x128,
        ),
{
    let (below_0, below_1): (U256, U256) = if tick_current >= tick_lower {
        (lower.fee_growth_outside_0_x128, lower.fee_growth_outside_1_x128)
    } else {
        (
            wrapping_sub_u256(fee_growth_global_0_x128, lower.fee_growth_outside_0_x128),
            wrapping_sub_u256(fee_growth_global_1_x128, lower.fee_growth_outside_1_x128),
        )
    };
    let (above_0, above_1): (U256, U256) = if tick_current < tick_upper {
        (upper.fee_growth_outside_0_x128, upper.fee_growth_outside_1_x128)
    } else {
        (
            wrapping_sub_u256(fee_growth_global_0_x128, upper.fee_growth_outside_0_x128),
            wrapping_sub_u256(fee_growth_global_1_x128, upper.fee_growth_outside_1_x128),
        )
    };
    (
        wrapping_sub_u256(wrapping_sub_u256(fee_growth_global_0_x128, below_0), above_0),
        wrapping_sub_u256(wrapping_sub_u256(fee_growth_global_1_x128, below_1), above_1),
    )
}

/// The record of `tick`; a tick that is not in the map has the empty record.
pub open spec fn tick_info(ticks: Map<i32, Tick>, tick: i32) -> Tick {
    if ticks.contains_key(tick) {
        ticks[tick]
    } else {
        Tick::empty()
    }
}

/// The ticks that the pool has a record of.
#[derive(Clone, Debug)]
pub struct Ticks {
    pub map: HashMap<i32, Tick>,
}

impl View for Ticks {
    type V = Map<i32, Tick>;

    open spec fn view(&self) -> Map<i32, Tick> {
        self.map@
    }
}

impl Ticks {
    /// No tick has a record.
    pub fn new() -> (r: Ticks)
        ensures
            r@ == Map::<i32, Tick>::empty(),
    {
        Ticks { map: HashMap::new() }
    }

    /// The record of `tick`.
    pub fn get(&self, tick: i32) -> (r: Tick)
        ensures
            r == tick_info(self@, tick),
    {
        match self.map.get(&tick) {
            Some(info) => *info,
            None => Tick::new(),
        }
    }

    /// Stores the record of `tick`.
    pub fn set(&mut self, tick: i32, info: Tick)
        ensures
            final(self)@ == old(self)@.insert(tick, info),
    {
        self.map.insert(tick, info);
    }

    /// Drops the record of `tick`.
    pub fn remove(&mut self, tick: i32)
        ensures
            final(self)@ == old(self)@.remove(tick),
    {
        self.map.remove(&tick);
    }
}

impl UniswapV3Pool {
    /// The fee growth inside the range between two ticks, from the pool's
    /// records of the two ticks; see [`fee_growth_inside_spec`].
    pub fn get_fee_growth_inside(
        &self,
        tick_lower: i32,
        tick_upper: i32,
        tick_current: i32,
        fee_growth_global_0_x128: U256,
        fee_growth_global_1_x128: U256,
    ) -> (r: (U256, U256))
        ensures
            r == fee_growth_inside_spec(
                tick_info(self@.ticks, tick_lower),
                tick_info(self@.ticks, tick_upper),
                tick_lower,
                tick_upper,
                tick_current,
                fee_growth_global_0_x128,
                fee_growth_global_1_x128,
            ),
    {
        fee_growth_inside(
            self.ticks.get(tick_lower),
            self.ticks.get(tick_upper),
            tick_lower,
            tick_upper,
            tick_current,
            fee_growth_global_0_x128,
            fee_growth_global_1_x128,
        )
    }

    /// Applies a liquidity change to the record of `tick` and returns
    /// whether the tick has flipped; see [`Tick::update_spec`]. On an error
    /// the pool is unchanged.
    pub fn update_tick(
        &mut self,
        tick: i32,
        tick_current: i32,
        liquidity_delta: i128,
        fee_growth_global_0_x128: U256,
        fee_growth_global_1_x128: U256,
        seconds_per_liquidity_cumulative_x128: U256,
        tick_cumulative: i64,
        time: u32,
        upper: bool,
        max_liquidity: u128,
    ) -> (r: Result<bool, AMMError>)
        ensures
            match tick_info(old(self)@.ticks, tick).update_spec(
                tick,
                tick_current,
                liquidity_delta,
                Accumulators {
                    fee_growth_global_0_x128,
                    fee_growth_global_1_x128,
                    seconds_per_liquidity_cumulative_x128,
                    tick_cumulative,
                    time,
                },
                upper,
                max_liquidity,
            ) {
                Ok(updated) => r == Ok::<bool, AMMError>(updated.1) && final(self)@ == (PoolView {
                    ticks: old(self)@.ticks.insert(tick, updated.0),
                    ..old(self)@
                }),
                Err(e) => r == Err::<bool, AMMError>(e) && final(self)@ == old(self)@,
            },
    {
        let updated: (Tick, bool) = self.ticks.get(tick).update(
            tick,
            tick_current,
            liquidity_delta,
            Accumulators {
                fee_growth_global_0_x128,
                fee_growth_global_1_x128,
                seconds_per_liquidity_cumulative_x128,
                tick_cumulative,
                time,
            },
            upper,
            max_liquidity,
        )?;
        self.ticks.set(tick, updated.0);
        Ok(updated.1)
    }

    /// Flips the outside values of `tick` as the price crosses it and
    /// returns its net liquidity; see [`Tick::cross_spec`].
    pub fn cross_tick(
        &mut self,
        tick: i32,
        fee_growth_global_0_x128: U256,
        fee_growth_global_1_x128: U256,
        seconds_per_liquidity_cumulative_x128: U256,
        tick_cumulative: i64,
        time: u32,
    ) -> (r: i128)
        ensures
            r == tick_info(old(self)@.ticks, tick).liquidity_net,
            final(self)@ == (PoolView {
                ticks: old(self)@.ticks.insert(
                    tick,
                    tick_info(old(self)@.ticks, tick).cross_spec(
                        Accumulators {
                            fee_growth_global_0_x128,
                            fee_growth_global_1_x128,
                            seconds_per_liquidity_cumulative_x128,
                            tick_cumulative,
                            time,
                        },
                    ),
                ),
                ..old(self)@
            }),
    {
        let info: Tick = self.ticks.get(tick);
        self.ticks.set(
            tick,
            info.cross(
                Accumulators {
                    fee_growth_global_0_x128,
                    fee_growth_global_1_x128,
                    seconds_per_liquidity_cumulative_x128,
                    tick_cumulative,
                    time,
                },
            ),
        );
        info.liquidity_net
    }
}

} // verus!
