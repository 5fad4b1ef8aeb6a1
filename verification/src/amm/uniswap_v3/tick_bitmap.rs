//! The sparse bitmap of initialized ticks, 256 ticks to a word.

use std::collections::HashMap;
use vstd::arithmetic::power2::pow2;
use vstd::prelude::*;

use crate::amm::uniswap_v3::bit_math::{least_significant_bit, most_significant_bit};
use crate::amm::uniswap_v3::pool::{PoolView, UniswapV3Pool};
use crate::errors::AMMError;
use crate::primitives::bits::{
    bit_is_set, flip_bit, highest_set_bit_at_or_below, lowest_set_bit_at_or_above,
};
use crate::primitives::u256::{lemma_halves, lemma_two_pows, u256_from_nat};
use crate::primitives::U256;

verus! {

broadcast use vstd::std_specs::hash::group_hash_axioms;

/// The widest tick spacing that the protocol admits.
pub const MAX_TICK_SPACING: i32 = 16383;

/// The lowest value of a 24-bit signed tick.
pub const MIN_INT24: i32 = -8388608;

/// The highest value of a 24-bit signed tick.
pub const MAX_INT24: i32 = 8388607;

/// A number wrapped into the signed 16-bit range.
pub open spec fn wrap_i16(x: int) -> int {
    (x + 32768) % 65536 - 32768
}

/// The index of the word that holds the bit of a compressed tick.
pub open spec fn word_pos_spec(compressed: int) -> i16 {
    wrap_i16(compressed / 256) as i16
}

/// The index, within its word, of the bit of a compressed tick.
pub open spec fn bit_pos_spec(compressed: int) -> u8 {
    (compressed % 256) as u8
}

/// The tick divided by the spacing, rounded towards negative infinity.
pub open spec fn compressed_spec(tick: int, tick_spacing: int) -> int {
    tick / tick_spacing
}

/// The word at `pos`; a word that was never written is zero.
pub open spec fn word_at(words: Map<i16, U256>, pos: i16) -> nat {
    if words.contains_key(pos) {
        words[pos]@
    } else {
        0
    }
}

/// What the search for the next initialized tick returns: the tick found and `true`,
/// or the tick at the end of the word and `false`.
pub open spec fn next_initialized_tick_spec(
    words: Map<i16, U256>,
    tick: int,
    tick_spacing: int,
    lte: bool,
) -> (int, bool) {
    let compressed = compressed_spec(tick, tick_spacing);
    if lte {
        let word = word_at(words, word_pos_spec(compressed));
        let bit_pos = bit_pos_spec(compressed) as int;
        match highest_set_bit_at_or_below(word, bit_pos as nat) {
            Some(found) => ((compressed - (bit_pos - found)) * tick_spacing, true),
            None => ((compressed - bit_pos) * tick_spacing, false),
        }
    } else {
        let word = word_at(words, word_pos_spec(compressed + 1));
        let bit_pos = bit_pos_spec(compressed + 1) as int;
        match lowest_set_bit_at_or_above(word, bit_pos as nat) {
            Some(found) => ((compressed + 1 + (found - bit_pos)) * tick_spacing, true),
            None => ((compressed + 1 + (255 - bit_pos)) * tick_spacing, false),
        }
    }
}

/// The bitmap after the bit of `tick` has been toggled.
pub open spec fn flip_tick_spec(words: Map<i16, U256>, tick: int, tick_spacing: int) -> Map<
    i16,
    U256,
> {
    let compressed = compressed_spec(tick, tick_spacing);
    let pos = word_pos_spec(compressed);
    words.insert(
        pos,
        u256_from_nat(flip_bit(word_at(words, pos), bit_pos_spec(compressed) as nat)),
    )
}

/// Computes the position in the mapping where the initialized bit for a tick lives.
pub fn position(tick: i32) -> (r: (i16, u8))
    ensures
        r.0 == word_pos_spec(tick as int),
        r.1 == bit_pos_spec(tick as int),
{
    let shifted: i64 = tick as i64 + 0x8000_0000i64;
    let bit: i64 = shifted % 256;
    let word: i64 = shifted / 256;
    let wrapped: i64 = (word + 32768) % 65536 - 32768;
    assert(shifted == 256 * (tick as int / 256 + 0x80_0000) + (tick as int % 256)) by {
        vstd::arithmetic::div_mod::lemma_fundamental_div_mod(tick as int, 256);
    }
    assert(bit == tick as int % 256 && word == tick as int / 256 + 0x80_0000) by {
        vstd::arithmetic::div_mod::lemma_fundamental_div_mod_converse(
            shifted as int,
            256,
            tick as int / 256 + 0x80_0000,
            tick as int % 256,
        );
    }
    assert(wrapped == wrap_i16(tick as int / 256)) by {
        vstd::arithmetic::div_mod::lemma_mod_multiples_vanish(
            128,
            tick as int / 256 + 32768,
            65536,
        );
    }
    (wrapped as i16, bit as u8)
}

/// The tick divided by the spacing, rounded towards negative infinity.
pub fn compress(tick: i32, tick_spacing: i32) -> (r: i32)
    requires
        tick_spacing > 0,
    ensures
        r == compressed_spec(tick as int, tick_spacing as int),
{
    if tick >= 0 {
        tick / tick_spacing
    } else {
        let m: i64 = -(tick as i64);
        let s: i64 = tick_spacing as i64;
        let q: i64 = m / s;
        let rem: i64 = m % s;
        proof {
            vstd::arithmetic::div_mod::lemma_fundamental_div_mod(m as int, s as int);
            vstd::arithmetic::div_mod::lemma_mod_division_less_than_divisor(m as int, s as int);
            assert(q >= 0) by {
                vstd::arithmetic::div_mod::lemma_div_pos_is_pos(m as int, s as int);
            }
            assert(q <= m) by {
                vstd::arithmetic::div_mod::lemma_div_is_ordered_by_denominator(
                    m as int,
                    1,
                    s as int,
                );
            }
            if rem == 0 {
                assert(tick as int == (-q) * s + 0) by (nonlinear_arith)
                    requires
                        m == s * q + rem,
                        rem == 0,
                        tick as int == -m,
                ;
                vstd::arithmetic::div_mod::lemma_fundamental_div_mod_converse(
                    tick as int,
                    s as int,
                    -q,
                    0,
                );
            } else {
                assert(q < m) by (nonlinear_arith)
                    requires
                        m == s * q + rem,
                        0 < rem < s,
                        q >= 0,
                ;
                assert(tick as int == (-q - 1) * s + (s - rem)) by (nonlinear_arith)
                    requires
                        m == s * q + rem,
                        tick as int == -m,
                ;
                vstd::arithmetic::div_mod::lemma_fundamental_div_mod_converse(
                    tick as int,
                    s as int,
                    -q - 1,
                    s - rem,
                );
            }
        }
        if rem == 0 {
            (-q) as i32
        } else {
            (-q - 1) as i32
        }
    }
}

/// A compressed tick lies between the tick's quotient bounds.
pub proof fn lemma_compressed_bounds(tick: int, tick_spacing: int)
    requires
        tick_spacing > 0,
    ensures
        compressed_spec(tick, tick_spacing) * tick_spacing <= tick,
        tick < compressed_spec(tick, tick_spacing) * tick_spacing + tick_spacing,
        tick >= 0 ==> 0 <= compressed_spec(tick, tick_spacing) <= tick,
        tick < 0 ==> tick <= compressed_spec(tick, tick_spacing) < 0,
{
    let c = tick / tick_spacing;
    vstd::arithmetic::div_mod::lemma_fundamental_div_mod(tick, tick_spacing);
    vstd::arithmetic::div_mod::lemma_mod_division_less_than_divisor(tick, tick_spacing);
    assert(c * tick_spacing == tick_spacing * c) by (nonlinear_arith);
    if tick >= 0 {
        assert(c >= 0 && c <= tick) by (nonlinear_arith)
            requires
                tick_spacing * c <= tick,
                tick < tick_spacing * c + tick_spacing,
                tick_spacing >= 1,
                tick >= 0,
        ;
    } else {
        assert(c < 0 && c >= tick) by (nonlinear_arith)
            requires
                tick_spacing * c <= tick,
                tick < tick_spacing * c + tick_spacing,
                tick_spacing >= 1,
                tick < 0,
        ;
    }
}

/// Whether the tick is a multiple of the spacing.
pub fn is_multiple_of_spacing(tick: i32, tick_spacing: i32) -> (r: bool)
    requires
        tick_spacing > 0,
    ensures
        r == ((tick as int) % (tick_spacing as int) == 0),
{
    let compressed: i32 = compress(tick, tick_spacing);
    proof {
        vstd::arithmetic::div_mod::lemma_fundamental_div_mod(tick as int, tick_spacing as int);
        lemma_compressed_bounds(tick as int, tick_spacing as int);
        assert(compressed * tick_spacing == tick_spacing * compressed) by (nonlinear_arith);
    }
    (compressed as i64) * (tick_spacing as i64) == tick as i64
}

/// The word with bit `bit_pos` toggled.
pub fn flip_word(word: U256, bit_pos: u8) -> (r: U256)
    ensures
        r@ == flip_bit(word@, bit_pos as nat),
{
    let mask: U256 = U256::pow2(bit_pos as u32);
    let shifted: U256 = word.shr(bit_pos as u32);
    proof {
        lemma_two_pows();
        lemma_halves(word);
        lemma_halves(shifted);
        crate::primitives::bits::lemma_flip_bit(word@, bit_pos as nat, bit_pos as nat);
        crate::primitives::bits::lemma_flip_bit_bound(word@, bit_pos as nat);
        assert(shifted@ % 2 == shifted.l0 as nat % 2);
    }
    if shifted.l0 % 2 == 1 {
        word.wrapping_sub(mask)
    } else {
        word.wrapping_add(mask)
    }
}

/// The highest set bit of `word` among the bits `0..=bit_pos`.
pub fn search_down(word: U256, bit_pos: u8) -> (r: Option<u8>)
    ensures
        match r {
            Some(found) => found <= bit_pos && highest_set_bit_at_or_below(word@, bit_pos as nat)
                == Some(found as nat),
            None => highest_set_bit_at_or_below(word@, bit_pos as nat) is None,
        },
{
    let masked: U256 = word.low_bits(bit_pos as u32 + 1);
    proof {
        assert forall|j: nat| bit_is_set(masked@, j) == (j <= bit_pos && bit_is_set(word@, j)) by {
            crate::primitives::bits::lemma_bit_of_low_bits(word@, bit_pos as nat + 1, j);
        }
    }
    match most_significant_bit(masked) {
        Some(found) => {
            proof {
                assert forall|j: nat| found < j implies !bit_is_set(masked@, j) by {
                    crate::primitives::bits::lemma_bits_of_bounded(masked@, found as nat, j);
                }
                crate::primitives::bits::lemma_bits_of_bounded(masked@, found as nat, 0);
                assert(bit_is_set(masked@, found as nat));
                assert forall|j: nat| found < j <= bit_pos implies !bit_is_set(word@, j) by {
                    assert(!bit_is_set(masked@, j));
                }
                crate::primitives::bits::lemma_highest_is(word@, bit_pos as nat, found as nat);
            }
            Some(found)
        },
        None => {
            proof {
                assert forall|j: nat| j <= bit_pos implies !bit_is_set(word@, j) by {
                    crate::primitives::bits::lemma_bit_of_zero(j);
                    assert(!bit_is_set(masked@, j));
                }
                crate::primitives::bits::lemma_highest_is_none(word@, bit_pos as nat);
            }
            None
        },
    }
}

/// The lowest set bit of `word` among the bits `bit_pos..=255`.
pub fn search_up(word: U256, bit_pos: u8) -> (r: Option<u8>)
    ensures
        match r {
            Some(found) => found >= bit_pos && lowest_set_bit_at_or_above(word@, bit_pos as nat)
                == Some(found as nat),
            None => lowest_set_bit_at_or_above(word@, bit_pos as nat) is None,
        },
{
    let low: U256 = word.low_bits(bit_pos as u32);
    proof {
        crate::primitives::bits::lemma_bit_of_high_bits(word@, bit_pos as nat, 0);
    }
    let masked: U256 = word.wrapping_sub(low);
    proof {
        assert(masked@ == word@ - low@);
        assert forall|j: nat| bit_is_set(masked@, j) == (j >= bit_pos && bit_is_set(word@, j)) by {
            crate::primitives::bits::lemma_bit_of_high_bits(word@, bit_pos as nat, j);
        }
    }
    match least_significant_bit(masked) {
        Some(found) => {
            proof {
                assert forall|j: nat| j < found implies !bit_is_set(masked@, j) by {
                    crate::primitives::bits::lemma_bit_of_multiple(masked@, found as nat, j);
                }
                assert(bit_is_set(masked@, found as nat));
                assert forall|j: nat| bit_pos <= j < found implies !bit_is_set(word@, j) by {
                    assert(!bit_is_set(masked@, j));
                }
                crate::primitives::bits::lemma_lowest_is(word@, bit_pos as nat, found as nat);
            }
            Some(found)
        },
        None => {
            proof {
                assert forall|j: nat| bit_pos <= j < 256 implies !bit_is_set(word@, j) by {
                    crate::primitives::bits::lemma_bit_of_zero(j);
                    assert(!bit_is_set(masked@, j));
                }
                crate::primitives::bits::lemma_lowest_is_none(word@, bit_pos as nat);
            }
            None
        },
    }
}

/// `index * tick_spacing`, for an index of moderate size.
fn times_spacing(index: i64, tick_spacing: i32) -> (r: i64)
    requires
        -0x8000_0000 <= index <= 0x8000_0000,
        tick_spacing > 0,
    ensures
        r == index * tick_spacing,
{
    assert(-0x8000_0000 * 0x8000_0000 <= index * tick_spacing <= 0x8000_0000 * 0x8000_0000)
        by (nonlinear_arith)
        requires
            -0x8000_0000 <= index <= 0x8000_0000,
            0 < tick_spacing < 0x8000_0000,
    ;
    index * (tick_spacing as i64)
}

/// The bitmap of initialized ticks.
#[derive(Clone, Debug)]
pub struct TickBitmap {
    pub words: HashMap<i16, U256>,
}

impl View for TickBitmap {
    type V = Map<i16, U256>;

    open spec fn view(&self) -> Map<i16, U256> {
        self.words@
    }
}

impl TickBitmap {
    /// A bitmap with no tick initialized.
    pub fn new() -> (r: TickBitmap)
        ensures
            r@ == Map::<i16, U256>::empty(),
    {
        TickBitmap { words: HashMap::new() }
    }

    /// The word at `pos`.
    pub fn word(&self, pos: i16) -> (r: U256)
        ensures
            r@ == word_at(self@, pos),
            self@.contains_key(pos) ==> r == self@[pos],
    {
        match self.words.get(&pos) {
            Some(w) => *w,
            None => U256::zero(),
        }
    }

    /// Whether the bit of the compressed tick is set.
    pub open spec fn is_initialized(&self, compressed: int) -> bool {
        bit_is_set(word_at(self@, word_pos_spec(compressed)), bit_pos_spec(compressed) as nat)
    }

    /// Flips the initialized state of `tick` from false to true, or vice versa.
    ///
    /// Fails, and changes nothing, when the tick is not a multiple of the spacing.
    pub fn flip_tick(&mut self, tick: i32, tick_spacing: i32) -> (r: Result<(), AMMError>)
        requires
            tick_spacing > 0,
        ensures
            (tick as int) % (tick_spacing as int) != 0 ==> r == Err::<(), AMMError>(
                AMMError::TickSpacingError,
            ) && final(self)@ == old(self)@,
            (tick as int) % (tick_spacing as int) == 0 ==> r is Ok && final(self)@
                == flip_tick_spec(old(self)@, tick as int, tick_spacing as int),
    {
        broadcast use crate::primitives::u256::lemma_from_nat_view;

        if !is_multiple_of_spacing(tick, tick_spacing) {
            return Err(AMMError::TickSpacingError);
        }
        let compressed: i32 = compress(tick, tick_spacing);
        let (word_pos, bit_pos): (i16, u8) = position(compressed);
        let flipped: U256 = flip_word(self.word(word_pos), bit_pos);
        self.words.insert(word_pos, flipped);
        Ok(())
    }

    /// Returns the next initialized tick in the same word as `tick` (or in the
    /// adjacent word, for a search upwards that starts on a word's last bit):
    /// at or below `tick` when `lte`, strictly above it otherwise, and whether
    /// a tick was found. Without one, the tick at the end of the word comes back.
    pub fn next_initialized_tick_within_one_word(
        &self,
        tick: i32,
        tick_spacing: i32,
        lte: bool,
    ) -> (r: (i32, bool))
        requires
            0 < tick_spacing <= MAX_TICK_SPACING,
            MIN_INT24 <= tick <= MAX_INT24,
        ensures
            (r.0 as int, r.1) == next_initialized_tick_spec(
                self@,
                tick as int,
                tick_spacing as int,
                lte,
            ),
            lte ==> tick - 256 * tick_spacing < r.0 <= tick,
            !lte ==> tick < r.0 <= tick + 256 * tick_spacing,
    {
        let compressed: i32 = compress(tick, tick_spacing);
        proof {
            lemma_compressed_bounds(tick as int, tick_spacing as int);
        }
        if lte {
            let (word_pos, bit_pos): (i16, u8) = position(compressed);
            let found: Option<u8> = search_down(self.word(word_pos), bit_pos);
            let back: i64 = match found {
                Some(bit) => bit_pos as i64 - bit as i64,
                None => bit_pos as i64,
            };
            proof {
                lemma_product_bounds(
                    compressed as int,
                    back as int,
                    tick_spacing as int,
                    tick as int,
                );
            }
            let next: i64 = times_spacing(compressed as i64 - back, tick_spacing);
            (next as i32, found.is_some())
        } else {
            let (word_pos, bit_pos): (i16, u8) = position(compressed + 1);
            let found: Option<u8> = search_up(self.word(word_pos), bit_pos);
            let ahead: i64 = match found {
                Some(bit) => bit as i64 - bit_pos as i64,
                None => 255 - bit_pos as i64,
            };
            proof {
                lemma_product_bounds(
                    compressed as int,
                    -1 - ahead as int,
                    tick_spacing as int,
                    tick as int,
                );
            }
            let next: i64 = times_spacing(compressed as i64 + 1 + ahead, tick_spacing);
            (next as i32, found.is_some())
        }
    }
}

/// Flipping the same tick twice restores every word of the bitmap.
pub proof fn lemma_flip_tick_twice(words: Map<i16, U256>, tick: int, tick_spacing: int, pos: i16)
    ensures
        word_at(
            flip_tick_spec(flip_tick_spec(words, tick, tick_spacing), tick, tick_spacing),
            pos,
        ) == word_at(words, pos),
{
    let compressed = compressed_spec(tick, tick_spacing);
    let flipped_pos = word_pos_spec(compressed);
    let bit = bit_pos_spec(compressed) as nat;
    let word = word_at(words, flipped_pos);
    let once = flip_tick_spec(words, tick, tick_spacing);
    lemma_two_pows();
    if words.contains_key(flipped_pos) {
        lemma_halves(words[flipped_pos]);
    }
    crate::primitives::bits::lemma_flip_bit_bound(word, bit);
    crate::primitives::u256::lemma_from_nat(flip_bit(word, bit));
    assert(word_at(once, flipped_pos) == flip_bit(word, bit));
    crate::primitives::bits::lemma_flip_bit_twice(word, bit);
    crate::primitives::u256::lemma_from_nat(word);
}

/// Flipping a tick toggles its bit and leaves every other bit of the bitmap as it is.
pub proof fn lemma_flip_tick_bits(
    words: Map<i16, U256>,
    tick: int,
    tick_spacing: int,
    pos: i16,
    bit: nat,
)
    ensures
        bit_is_set(word_at(flip_tick_spec(words, tick, tick_spacing), pos), bit) == (if pos
            == word_pos_spec(compressed_spec(tick, tick_spacing)) && bit == bit_pos_spec(
            compressed_spec(tick, tick_spacing),
        ) as nat {
            !bit_is_set(word_at(words, pos), bit)
        } else {
            bit_is_set(word_at(words, pos), bit)
        }),
{
    let compressed = compressed_spec(tick, tick_spacing);
    let flipped_pos = word_pos_spec(compressed);
    let flipped_bit = bit_pos_spec(compressed) as nat;
    let word = word_at(words, flipped_pos);
    lemma_two_pows();
    if words.contains_key(flipped_pos) {
        lemma_halves(words[flipped_pos]);
    }
    crate::primitives::bits::lemma_flip_bit_bound(word, flipped_bit);
    crate::primitives::u256::lemma_from_nat(flip_bit(word, flipped_bit));
    crate::primitives::bits::lemma_flip_bit(word, flipped_bit, bit);
}

impl UniswapV3Pool {
    /// Flips the initialized state of `tick` in the pool's bitmap; see
    /// [`TickBitmap::flip_tick`].
    pub fn flip_tick(&mut self, tick: i32, tick_spacing: i32) -> (r: Result<(), AMMError>)
        requires
            tick_spacing > 0,
        ensures
            (tick as int) % (tick_spacing as int) != 0 ==> r == Err::<(), AMMError>(
                AMMError::TickSpacingError,
            ) && final(self)@ == old(self)@,
            (tick as int) % (tick_spacing as int) == 0 ==> r is Ok && final(self)@ == (PoolView {
                tick_bitmap: flip_tick_spec(
                    old(self)@.tick_bitmap,
                    tick as int,
                    tick_spacing as int,
                ),
                ..old(self)@
            }),
    {
        self.tick_bitmap.flip_tick(tick, tick_spacing)
    }

    /// The next initialized tick within one word of the pool's bitmap; see
    /// [`TickBitmap::next_initialized_tick_within_one_word`].
    pub fn next_initialized_tick_within_one_word(
        &self,
        tick: i32,
        tick_spacing: i32,
        lte: bool,
    ) -> (r: Result<(i32, bool), AMMError>)
        requires
            0 < tick_spacing <= MAX_TICK_SPACING,
            MIN_INT24 <= tick <= MAX_INT24,
        ensures
            r matches Ok(found) && (found.0 as int, found.1) == next_initialized_tick_spec(
                self@.tick_bitmap,
                tick as int,
                tick_spacing as int,
                lte,
            ),
    {
        Ok(self.tick_bitmap.next_initialized_tick_within_one_word(tick, tick_spacing, lte))
    }
}

/// Bounds of `(compressed - back) * spacing` around the tick.
proof fn lemma_product_bounds(compressed: int, back: int, tick_spacing: int, tick: int)
    requires
        tick_spacing > 0,
        -256 <= back <= 255,
        compressed == compressed_spec(tick, tick_spacing),
    ensures
        (compressed - back) * tick_spacing == compressed * tick_spacing - back * tick_spacing,
        back >= 0 ==> tick - 256 * tick_spacing < (compressed - back) * tick_spacing <= tick,
        back < 0 ==> tick < (compressed - back) * tick_spacing <= tick + 256 * tick_spacing,
{
    lemma_compressed_bounds(tick, tick_spacing);
    assert((compressed - back) * tick_spacing == compressed * tick_spacing - back * tick_spacing)
        by (nonlinear_arith);
    if back >= 0 {
        assert(0 <= back * tick_spacing <= 255 * tick_spacing) by (nonlinear_arith)
            requires
                0 <= back <= 255,
                tick_spacing > 0,
        ;
    } else {
        assert(tick_spacing <= -back * tick_spacing <= 256 * tick_spacing) by (nonlinear_arith)
            requires
                -256 <= back <= -1,
                tick_spacing > 0,
        ;
        assert(-back * tick_spacing == -(back * tick_spacing)) by (nonlinear_arith);
    }
}

} // verus!
