//! The layout of the pool's state in 32-byte storage slots.

use vstd::prelude::*;

use crate::amm::uniswap_v3::oracle::Observation;
use crate::amm::uniswap_v3::pool::Slot0;
use crate::primitives::u256::{lemma_halves, two_pow_128, two_pow_160};
use crate::primitives::U256;

verus! {

/// 2^56.
pub open spec fn two_pow_56() -> nat {
    0x100_0000_0000_0000
}

/// The low 56 bits of a signed value in two's complement.
pub open spec fn i56_bits(x: i64) -> nat {
    ((x as int) % 0x100_0000_0000_0000) as nat
}

/// The low 24 bits of a signed value in two's complement.
pub open spec fn i24_bits(x: i32) -> nat {
    ((x as int) % 0x100_0000) as nat
}

/// The 128 bits of a signed value in two's complement.
pub open spec fn i128_bits(x: i128) -> nat {
    if x >= 0 {
        x as nat
    } else {
        (x + two_pow_128()) as nat
    }
}

/// The signed value of 128 bits in two's complement.
pub open spec fn i128_from_bits(bits: nat) -> int {
    if bits < 0x8000_0000_0000_0000_0000_0000_0000_0000 {
        bits as int
    } else {
        bits - two_pow_128()
    }
}

/// The signed value of 56 bits in two's complement.
pub open spec fn i56_from_bits(bits: nat) -> int {
    if bits < 0x80_0000_0000_0000 {
        bits as int
    } else {
        bits - 0x100_0000_0000_0000
    }
}

/// 1 for `true` and 0 for `false`.
pub open spec fn flag(b: bool) -> nat {
    if b {
        1
    } else {
        0
    }
}

/// The low 56 bits of a signed value; see [`i56_bits`].
pub fn low_56_bits(x: i64) -> (r: u64)
    ensures
        r == i56_bits(x),
        r < 0x100_0000_0000_0000,
{
    let shifted: i128 = x as i128 + 0x8000_0000_0000_0000i128;
    proof {
        vstd::arithmetic::div_mod::lemma_mod_multiples_vanish(128, x as int, 0x100_0000_0000_0000);
    }
    (shifted % 0x100_0000_0000_0000i128) as u64
}

/// The low 24 bits of a signed value; see [`i24_bits`].
pub fn low_24_bits(x: i32) -> (r: u64)
    ensures
        r == i24_bits(x),
        r < 0x100_0000,
{
    let shifted: i64 = x as i64 + 0x8000_0000i64;
    proof {
        vstd::arithmetic::div_mod::lemma_mod_multiples_vanish(128, x as int, 0x100_0000);
    }
    (shifted % 0x100_0000i64) as u64
}

/// The 128 bits of a signed value; see [`i128_bits`].
pub fn bits_of_i128(x: i128) -> (r: u128)
    ensures
        r == i128_bits(x),
{
    if x >= 0 {
        x as u128
    } else {
        ((x - i128::MIN) as u128) + 0x8000_0000_0000_0000_0000_0000_0000_0000u128
    }
}

/// The signed value of 128 bits; see [`i128_from_bits`].
pub fn i128_of_bits(bits: u128) -> (r: i128)
    ensures
        r == i128_from_bits(bits as nat),
{
    if bits < 0x8000_0000_0000_0000_0000_0000_0000_0000u128 {
        bits as i128
    } else {
        ((bits - 0x8000_0000_0000_0000_0000_0000_0000_0000u128) as i128) + i128::MIN
    }
}

/// The signed value of 56 bits; see [`i56_from_bits`].
pub fn i56_of_bits(bits: u64) -> (r: i64)
    requires
        bits < 0x100_0000_0000_0000,
    ensures
        r == i56_from_bits(bits as nat),
{
    if bits < 0x80_0000_0000_0000u64 {
        bits as i64
    } else {
        (bits as i64) - 0x100_0000_0000_0000i64
    }
}

/// 2 to the power of `e`, for the exponents that the layout uses.
pub open spec fn two_pow(e: nat) -> nat {
    if e == 32 {
        0x1_0000_0000nat
    } else if e == 56 {
        0x100_0000_0000_0000nat
    } else if e == 88 {
        0x100_0000_0000_0000_0000_0000nat
    } else if e == 128 {
        0x1_0000_0000_0000_0000_0000_0000_0000_0000nat
    } else if e == 160 {
        0x1_0000_0000_0000_0000_0000_0000_0000_0000_0000_0000nat
    } else if e == 184 {
        0x100_0000_0000_0000_0000_0000_0000_0000_0000_0000_0000_0000nat
    } else if e == 200 {
        0x100_0000_0000_0000_0000_0000_0000_0000_0000_0000_0000_0000_0000nat
    } else if e == 216 {
        0x100_0000_0000_0000_0000_0000_0000_0000_0000_0000_0000_0000_0000_0000nat
    } else if e == 232 {
        0x100_0000_0000_0000_0000_0000_0000_0000_0000_0000_0000_0000_0000_0000_0000nat
    } else if e == 240 {
        0x1_0000_0000_0000_0000_0000_0000_0000_0000_0000_0000_0000_0000_0000_0000_0000nat
    } else if e == 248 {
        0x100_0000_0000_0000_0000_0000_0000_0000_0000_0000_0000_0000_0000_0000_0000_0000nat
    } else {
        vstd::arithmetic::power2::pow2(e)
    }
}

/// The word of the pool's first slot: from the low bits up, the price in
/// 160 bits, the tick in 24, the observation index, cardinality and next
/// cardinality in 16 each, the protocol's fee shares in 8, and the
/// unlocked flag.
pub open spec fn slot0_word_spec(slot0: Slot0) -> nat {
    slot0.sqrt_price_x96@ % two_pow(160) + i24_bits(slot0.tick) * two_pow(160)
        + (slot0.observation_index as nat) * two_pow(184) + (slot0.observation_cardinality as nat)
        * two_pow(200) + (slot0.observation_cardinality_next as nat) * two_pow(216) + (
    slot0.fee_protocol as nat) * two_pow(232) + flag(slot0.unlocked) * two_pow(240)
}

/// The word of one observation: from the low bits up, the timestamp in 32
/// bits, the tick accumulator in 56, the seconds-per-liquidity accumulator
/// in 160, and the initialized flag.
pub open spec fn observation_word_spec(observation: Observation) -> nat {
    (observation.block_timestamp as nat) + i56_bits(observation.tick_cumulative) * two_pow(32)
        + (observation.seconds_per_liquidity_cumulative_x128@ % two_pow(160)) * two_pow(88)
        + flag(observation.initialized) * two_pow(248)
}

impl Slot0 {
    /// Packs the slot into its storage word; see [`slot0_word_spec`].
    pub fn into_word(self) -> (r: U256)
        ensures
            r@ == slot0_word_spec(self),
    {
        let price: U256 = self.sqrt_price_x96.low_160();
        let tick: u64 = low_24_bits(self.tick);
        let index: u64 = self.observation_index as u64;
        let unlocked: u64 = if self.unlocked {
            1
        } else {
            0
        };
        proof {
            lemma_halves(price);
            assert(price.l3 == 0 && price.l2 < 0x1_0000_0000) by {
                if price.l3 != 0 || price.l2 >= 0x1_0000_0000 {
                    assert(price@ >= two_pow_160());
                }
            }
        }
        let l2: u64 = price.l2 + tick * 0x1_0000_0000u64 + (index % 256) * 0x100_0000_0000_0000u64;
        let l3: u64 = index / 256 + (self.observation_cardinality as u64) * 0x100u64 + (
        self.observation_cardinality_next as u64) * 0x100_0000u64 + (self.fee_protocol as u64)
            * 0x100_0000_0000u64 + unlocked * 0x1_0000_0000_0000u64;
        let word = U256 { l0: price.l0, l1: price.l1, l2, l3 };
        proof {
            crate::primitives::u256::lemma_two_pows();
            lemma_halves(word);
            assert(index == 256 * (index / 256) + index % 256);
            assert(price@ == self.sqrt_price_x96@ % two_pow(160));
            assert(tick == i24_bits(self.tick));
            assert(unlocked == flag(self.unlocked));
            assert(word@ == price@ + tick * two_pow(160) + index * two_pow(184) + (
            self.observation_cardinality as nat) * two_pow(200) + (
            self.observation_cardinality_next as nat) * two_pow(216) + (self.fee_protocol as nat)
                * two_pow(232) + unlocked * two_pow(240));
        }
        word
    }
}

impl Observation {
    /// Packs the observation into its storage word; see
    /// [`observation_word_spec`].
    pub fn into_word(self) -> (r: U256)
        ensures
            r@ == observation_word_spec(self),
    {
        let spl: U256 = self.seconds_per_liquidity_cumulative_x128.low_160();
        let tick_cumulative: u64 = low_56_bits(self.tick_cumulative);
        let initialized: u64 = if self.initialized {
            1
        } else {
            0
        };
        proof {
            lemma_halves(spl);
            assert(spl.l3 == 0 && spl.l2 < 0x1_0000_0000) by {
                if spl.l3 != 0 || spl.l2 >= 0x1_0000_0000 {
                    assert(spl@ >= two_pow_160());
                }
            }
        }
        let l0: u64 = (self.block_timestamp as u64) + (tick_cumulative % 0x1_0000_0000u64)
            * 0x1_0000_0000u64;
        let l1: u64 = tick_cumulative / 0x1_0000_0000u64 + (spl.l0 % 0x100_0000_0000u64)
            * 0x100_0000u64;
        let l2: u64 = spl.l0 / 0x100_0000_0000u64 + (spl.l1 % 0x100_0000_0000u64) * 0x100_0000u64;
        let l3: u64 = spl.l1 / 0x100_0000_0000u64 + spl.l2 * 0x100_0000u64 + initialized
            * 0x100_0000_0000_0000u64;
        U256 { l0, l1, l2, l3 }
    }
}

} // verus!
