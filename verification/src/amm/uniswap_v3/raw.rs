//! Reads of the pool's state by storage slot.

use vstd::arithmetic::power2::pow2;
use vstd::prelude::*;

use crate::amm::uniswap_v3::layout::{
    i24_bits, low_24_bits, observation_word_spec, slot0_word_spec,
};
use crate::amm::uniswap_v3::oracle::{observation_at, Observation, Observations};
use crate::amm::uniswap_v3::pool::{PoolView, UniswapV3Pool};
use crate::amm::uniswap_v3::position::{
    position_words_spec, PositionEntry, PositionKey, Positions,
};
use crate::amm::uniswap_v3::tick::{tick_words_spec, Tick, Ticks};
use crate::amm::uniswap_v3::tick_bitmap::TickBitmap;
use crate::primitives::i256::{i256_from_int, lemma_i256_from_int_view};
use crate::primitives::u256::{lemma_from_nat_view, lemma_halves, two_pow_128, u256_from_nat};
use crate::primitives::wrapping::{wrap_u256, wrapping_sub_u256};
use crate::primitives::{I256, U256};

verus! {

broadcast use vstd::std_specs::hash::group_hash_axioms;

/// The slot of the pool's tick records in the contract's layout.
pub const TICKS_SLOT: u64 = 5;

/// The slot of the pool's tick bitmap in the contract's layout.
pub const TICK_BITMAP_SLOT: u64 = 6;

/// The slot of the pool's positions in the contract's layout.
pub const POSITIONS_SLOT: u64 = 7;

/// The first slot of the pool's observations in the contract's layout.
pub const OBSERVATIONS_SLOT: u64 = 8;

/// The number of slots that the contract keeps for observations.
pub const OBSERVATIONS_LENGTH: u64 = 65535;

/// The Keccak-256 hash of a string of bytes, read as a big-endian number.
pub uninterp spec fn keccak256_spec(input: Seq<u8>) -> nat;

/// Calls `alloy::primitives::keccak256`.
///
/// Trusted: the hash is a function of the bytes alone.
#[verifier::external_body]
fn keccak256_outside(input: &Vec<u8>) -> (r: U256)
    ensures
        r@ == keccak256_spec(input@),
{
    let hash = alloy::primitives::keccak256(input);
    U256::from_limbs(alloy::primitives::U256::from_be_bytes(hash.0).into_limbs())
}

/// The Keccak-256 hash of a string of bytes as a 256-bit number.
pub fn keccak256(input: &Vec<u8>) -> (r: U256)
    ensures
        r == u256_from_nat(keccak256_spec(input@)),
{
    broadcast use lemma_from_nat_view;

    keccak256_outside(input)
}

/// The `count` low bytes of a number, the most significant first.
pub open spec fn be_bytes(value: nat, count: nat) -> Seq<u8> {
    Seq::new(count, |i: int| ((value / pow2((8 * (count - 1 - i)) as nat)) % 256) as u8)
}

/// Appends the `count` low bytes of `value`, the most significant first.
pub fn push_be_bytes(out: &mut Vec<u8>, value: u128, count: usize)
    requires
        count <= 16,
    ensures
        final(out)@ == old(out)@ + be_bytes(value as nat, count as nat),
{
    let ghost start = out@;
    let mut done: usize = 0;
    while done < count
        invariant
            done <= count <= 16,
            out@ == start + be_bytes(value as nat, count as nat).take(done as int),
        decreases count - done,
    {
        let shift: u32 = (8 * (count - 1 - done)) as u32;
        proof {
            vstd::arithmetic::power2::lemma2_to64();
            vstd::bits::lemma_u128_shr_is_div(value, shift as u128);
        }
        let byte: u128 = (value >> shift) % 256;
        out.push(byte as u8);
        proof {
            let all = be_bytes(value as nat, count as nat);
            assert(all.take(done + 1) =~= all.take(done as int).push(all[done as int]));
            assert(out@ =~= start + all.take(done + 1));
        }
        done = done + 1;
    }
    proof {
        let all = be_bytes(value as nat, count as nat);
        assert(all.take(count as int) =~= all);
    }
}

/// The 32 bytes of a word, the most significant first.
pub open spec fn word_bytes(word: U256) -> Seq<u8> {
    be_bytes(word@ / two_pow_128(), 16) + be_bytes(word@ % two_pow_128(), 16)
}

/// Appends the 32 bytes of a word, the most significant first.
pub fn push_word(out: &mut Vec<u8>, word: U256)
    ensures
        final(out)@ == old(out)@ + word_bytes(word),
{
    push_be_bytes(out, word.high_u128(), 16);
    push_be_bytes(out, word.low_u128(), 16);
    proof {
        assert(out@ =~= old(out)@ + word_bytes(word));
    }
}

/// The slot of the entry of `key` in a mapping at `base`: the hash of the
/// key's word followed by the base's word.
pub open spec fn mapping_slot_spec(key: U256, base: u64) -> U256 {
    u256_from_nat(
        keccak256_spec(word_bytes(key) + word_bytes(U256 { l0: base, l1: 0, l2: 0, l3: 0 })),
    )
}

/// Computes the slot of an entry of a mapping; see [`mapping_slot_spec`].
pub fn mapping_slot(key: U256, base: u64) -> (r: U256)
    ensures
        r == mapping_slot_spec(key, base),
{
    let mut input: Vec<u8> = Vec::new();
    push_word(&mut input, key);
    push_word(&mut input, U256 { l0: base, l1: 0, l2: 0, l3: 0 });
    proof {
        assert(input@ =~= word_bytes(key) + word_bytes(U256 { l0: base, l1: 0, l2: 0, l3: 0 }));
    }
    keccak256(&input)
}

/// A signed number as a word in two's complement.
pub open spec fn signed_word_spec(x: int) -> U256 {
    i256_from_int(x).raw
}

/// The first slot of the record of `tick`.
pub open spec fn tick_slot_spec(tick: i32) -> U256 {
    mapping_slot_spec(signed_word_spec(tick as int), TICKS_SLOT)
}

/// The slot of the bitmap word at `word_pos`.
pub open spec fn bitmap_slot_spec(word_pos: i16) -> U256 {
    mapping_slot_spec(signed_word_spec(word_pos as int), TICK_BITMAP_SLOT)
}

/// The bytes that identify a position: the owner's 20 bytes and the two
/// ticks in 3 bytes each.
pub open spec fn position_key_bytes(key: PositionKey) -> Seq<u8> {
    be_bytes(key.owner.high as nat, 4) + be_bytes(key.owner.low as nat, 16) + be_bytes(
        i24_bits(key.tick_lower),
        3,
    ) + be_bytes(i24_bits(key.tick_upper), 3)
}

/// The first slot of the position of `key`: the mapping slot of the hash
/// of the key's bytes.
pub open spec fn position_slot_spec(key: PositionKey) -> U256 {
    mapping_slot_spec(u256_from_nat(keccak256_spec(position_key_bytes(key))), POSITIONS_SLOT)
}

/// Computes the first slot of the record of `tick`; see [`tick_slot_spec`].
pub fn tick_slot(tick: i32) -> (r: U256)
    ensures
        r == tick_slot_spec(tick),
{
    broadcast use lemma_i256_from_int_view;

    mapping_slot(I256::from_i128(tick as i128).into_raw(), TICKS_SLOT)
}

/// Computes the slot of a bitmap word; see [`bitmap_slot_spec`].
pub fn bitmap_slot(word_pos: i16) -> (r: U256)
    ensures
        r == bitmap_slot_spec(word_pos),
{
    broadcast use lemma_i256_from_int_view;

    mapping_slot(I256::from_i128(word_pos as i128).into_raw(), TICK_BITMAP_SLOT)
}

/// Computes the first slot of a position; see [`position_slot_spec`].
pub fn position_slot(key: &PositionKey) -> (r: U256)
    ensures
        r == position_slot_spec(*key),
{
    let mut input: Vec<u8> = Vec::new();
    push_be_bytes(&mut input, key.owner.high as u128, 4);
    push_be_bytes(&mut input, key.owner.low, 16);
    push_be_bytes(&mut input, low_24_bits(key.tick_lower) as u128, 3);
    push_be_bytes(&mut input, low_24_bits(key.tick_upper) as u128, 3);
    proof {
        assert(input@ =~= position_key_bytes(*key));
    }
    mapping_slot(keccak256(&input), POSITIONS_SLOT)
}

/// How far `slot` lies above `base`, counting around the end of the slot
/// numbers.
pub open spec fn slot_offset_spec(base: U256, slot: U256) -> nat {
    wrap_u256(slot@ - base@)
}

/// The offset of `slot` above `base`, where it is below `length`.
pub fn offset_within(base: U256, slot: U256, length: u64) -> (r: Option<u64>)
    ensures
        r == (if slot_offset_spec(base, slot) < length {
            Some(slot_offset_spec(base, slot) as u64)
        } else {
            None::<u64>
        }),
{
    let offset: U256 = wrapping_sub_u256(slot, base);
    proof {
        lemma_from_nat_view(offset);
        lemma_halves(offset);
        crate::primitives::wrapping::lemma_mod_of_mod(slot@ - base@);
        crate::primitives::u256::lemma_from_nat(wrap_u256(slot@ - base@));
    }
    if offset.l1 == 0 && offset.l2 == 0 && offset.l3 == 0 && offset.l0 < length {
        Some(offset.l0)
    } else {
        None
    }
}

/// The word at `offset` of four words, as the word of its number.
fn pick_word(words: &[U256; 4], offset: u64, Ghost(numbers): Ghost<Seq<nat>>) -> (r: U256)
    requires
        offset < 4,
        numbers.len() == 4,
        forall|i: int| 0 <= i < 4 ==> (#[trigger] words[i])@ == numbers[i],
    ensures
        r == u256_from_nat(numbers[offset as int]),
{
    let word: U256 = words[offset as usize];
    proof {
        assert(words[offset as int]@ == numbers[offset as int]);
        lemma_from_nat_view(word);
    }
    word
}

/// Whether the record of `tick` covers `slot`.
pub open spec fn tick_holds(ticks: Map<i32, Tick>, slot: U256, tick: i32) -> bool {
    ticks.contains_key(tick) && slot_offset_spec(tick_slot_spec(tick), slot) < 4
}

/// Whether `tick` is the lowest tick whose record covers `slot`.
pub open spec fn is_lowest_tick(ticks: Map<i32, Tick>, slot: U256, tick: i32) -> bool {
    tick_holds(ticks, slot, tick) && forall|other: i32|
        tick_holds(ticks, slot, other) ==> tick <= other
}

/// The word at `slot` of the record of the lowest tick that covers the
/// slot, if there is one.
pub open spec fn tick_word_spec(ticks: Map<i32, Tick>, slot: U256) -> Option<U256> {
    if exists|tick: i32| tick_holds(ticks, slot, tick) {
        let tick = choose|tick: i32| is_lowest_tick(ticks, slot, tick);
        Some(
            u256_from_nat(
                tick_words_spec(ticks[tick])[slot_offset_spec(tick_slot_spec(tick), slot) as int],
            ),
        )
    } else {
        None
    }
}

/// Whether the bitmap word at `word_pos` lies at `slot`.
pub open spec fn word_holds(words: Map<i16, U256>, slot: U256, word_pos: i16) -> bool {
    words.contains_key(word_pos) && bitmap_slot_spec(word_pos) == slot
}

/// Whether `word_pos` is the lowest position of a bitmap word at `slot`.
pub open spec fn is_lowest_word(words: Map<i16, U256>, slot: U256, word_pos: i16) -> bool {
    word_holds(words, slot, word_pos) && forall|other: i16|
        word_holds(words, slot, other) ==> word_pos <= other
}

/// The bitmap word at `slot`, if there is one.
pub open spec fn bitmap_word_spec(words: Map<i16, U256>, slot: U256) -> Option<U256> {
    if exists|word_pos: i16| word_holds(words, slot, word_pos) {
        Some(words[choose|word_pos: i16| is_lowest_word(words, slot, word_pos)])
    } else {
        None
    }
}

/// The index, from `from` on, of the first position whose words cover
/// `slot`, or the number of positions.
pub open spec fn position_index_spec(entries: Seq<PositionEntry>, slot: U256, from: int) -> int
    decreases entries.len() - from,
{
    if from >= entries.len() {
        entries.len() as int
    } else if slot_offset_spec(position_slot_spec(entries[from].key), slot) < 4 {
        from
    } else {
        position_index_spec(entries, slot, from + 1)
    }
}

/// The word at `slot` of the first position that covers the slot, if
/// there is one.
pub open spec fn position_word_spec(entries: Seq<PositionEntry>, slot: U256) -> Option<U256> {
    let i = position_index_spec(entries, slot, 0);
    if 0 <= i < entries.len() {
        Some(
            u256_from_nat(
                position_words_spec(entries[i].position)[slot_offset_spec(
                    position_slot_spec(entries[i].key),
                    slot,
                ) as int],
            ),
        )
    } else {
        None
    }
}

/// The word of the observation at `slot`, if the slot is one of the
/// contract's observation slots.
pub open spec fn observation_word_at_spec(ring: Seq<Observation>, slot: U256) -> Option<U256> {
    if OBSERVATIONS_SLOT <= slot@ < OBSERVATIONS_SLOT + OBSERVATIONS_LENGTH {
        Some(
            u256_from_nat(
                observation_word_spec(observation_at(ring, slot@ - OBSERVATIONS_SLOT)),
            ),
        )
    } else {
        None
    }
}

/// The word that the contract holds at `slot` for a pool in this state:
/// the packed first slot at 0, the two fee growths at 1 and 2, the
/// liquidity at 4, and the words of positions, ticks, observations and the
/// bitmap at their slots; zero elsewhere.
pub open spec fn read_raw_spec(pool: PoolView, slot: U256) -> U256 {
    if slot@ == 0 {
        u256_from_nat(slot0_word_spec(pool.slot0))
    } else if slot@ == 1 {
        pool.fee_growth_global_0_x128
    } else if slot@ == 2 {
        pool.fee_growth_global_1_x128
    } else if slot@ == 4 {
        u256_from_nat(pool.liquidity as nat)
    } else {
        match position_word_spec(pool.positions, slot) {
            Some(word) => word,
            None => match tick_word_spec(pool.ticks, slot) {
                Some(word) => word,
                None => match observation_word_at_spec(pool.observations, slot) {
                    Some(word) => word,
                    None => match bitmap_word_spec(pool.tick_bitmap, slot) {
                        Some(word) => word,
                        None => U256 { l0: 0, l1: 0, l2: 0, l3: 0 },
                    },
                },
            },
        }
    }
}

impl Positions {
    /// The word at `slot` of the first position that covers the slot; see
    /// [`position_word_spec`].
    pub fn read_raw(&self, slot: U256) -> (r: Option<U256>)
        ensures
            r == position_word_spec(self@, slot),
    {
        let mut i: usize = 0;
        while i < self.entries.len()
            invariant
                i <= self@.len(),
                position_index_spec(self@, slot, 0) == position_index_spec(self@, slot, i as int),
            decreases self@.len() - i,
        {
            let entry: &PositionEntry = &self.entries[i];
            match offset_within(position_slot(&entry.key), slot, 4) {
                Some(offset) => {
                    let words: [U256; 4] = entry.position.encode_storage();
                    return Some(
                        pick_word(&words, offset, Ghost(position_words_spec(entry.position))),
                    );
                },
                None => {},
            }
            i = i + 1;
        }
        None
    }
}

impl Ticks {
    /// The lowest tick whose record covers `slot`, with the offset of the
    /// slot in the record.
    fn find_slot(&self, slot: U256) -> (r: Option<(i32, u64)>)
        ensures
            match r {
                Some(found) => is_lowest_tick(self@, slot, found.0) && found.1
                    == slot_offset_spec(tick_slot_spec(found.0), slot),
                None => forall|tick: i32| !tick_holds(self@, slot, tick),
            },
    {
        let mut best: Option<(i32, u64)> = None;
        for key in iter: self.map.keys()
            invariant
                match best {
                    Some(found) => tick_holds(self@, slot, found.0) && found.1 == slot_offset_spec(
                        tick_slot_spec(found.0),
                        slot,
                    ) && forall|i: int|
                        0 <= i < iter.index() && tick_holds(self@, slot, *iter.seq()[i])
                            ==> found.0 <= *iter.seq()[i],
                    None => forall|i: int|
                        0 <= i < iter.index() ==> !tick_holds(self@, slot, *iter.seq()[i]),
                },
        {
            match offset_within(tick_slot(*key), slot, 4) {
                Some(offset) => {
                    let better: bool = match best {
                        Some(found) => *key < found.0,
                        None => true,
                    };
                    if better {
                        best = Some((*key, offset));
                    }
                },
                None => {},
            }
        }
        best
    }

    /// The word at `slot` of the record of the lowest tick that covers the
    /// slot; see [`tick_word_spec`].
    pub fn read_raw(&self, slot: U256) -> (r: Option<U256>)
        ensures
            r == tick_word_spec(self@, slot),
    {
        match self.find_slot(slot) {
            Some(found) => {
                proof {
                    let chosen = choose|tick: i32| is_lowest_tick(self@, slot, tick);
                    assert(is_lowest_tick(self@, slot, found.0));
                    assert(chosen == found.0);
                }
                let info: Tick = self.get(found.0);
                let words: [U256; 4] = info.encode_storage();
                Some(pick_word(&words, found.1, Ghost(tick_words_spec(info))))
            },
            None => None,
        }
    }
}

impl TickBitmap {
    /// The lowest position of a bitmap word at `slot`.
    fn find_slot(&self, slot: U256) -> (r: Option<i16>)
        ensures
            match r {
                Some(found) => is_lowest_word(self@, slot, found),
                None => forall|word_pos: i16| !word_holds(self@, slot, word_pos),
            },
    {
        let mut best: Option<i16> = None;
        for key in iter: self.words.keys()
            invariant
                match best {
                    Some(found) => word_holds(self@, slot, found) && forall|i: int|
                        0 <= i < iter.index() && word_holds(self@, slot, *iter.seq()[i]) ==> found
                            <= *iter.seq()[i],
                    None => forall|i: int|
                        0 <= i < iter.index() ==> !word_holds(self@, slot, *iter.seq()[i]),
                },
        {
            if bitmap_slot(*key).equals(slot) {
                let better: bool = match best {
                    Some(found) => *key < found,
                    None => true,
                };
                if better {
                    best = Some(*key);
                }
            }
        }
        best
    }

    /// The bitmap word at `slot`; see [`bitmap_word_spec`].
    pub fn read_raw(&self, slot: U256) -> (r: Option<U256>)
        ensures
            r == bitmap_word_spec(self@, slot),
    {
        match self.find_slot(slot) {
            Some(found) => {
                proof {
                    let chosen = choose|word_pos: i16| is_lowest_word(self@, slot, word_pos);
                    assert(is_lowest_word(self@, slot, found));
                    assert(chosen == found);
                }
                Some(self.word(found))
            },
            None => None,
        }
    }
}

impl Observations {
    /// The word of the observation at `slot`; see
    /// [`observation_word_at_spec`].
    pub fn read_raw(&self, slot: U256) -> (r: Option<U256>)
        ensures
            r == observation_word_at_spec(self@, slot),
    {
        proof {
            lemma_halves(slot);
        }
        if slot.l1 == 0 && slot.l2 == 0 && slot.l3 == 0 && slot.l0 >= OBSERVATIONS_SLOT && slot.l0
            < OBSERVATIONS_SLOT + OBSERVATIONS_LENGTH {
            let word: U256 = self.get((slot.l0 - OBSERVATIONS_SLOT) as u16).into_word();
            proof {
                lemma_from_nat_view(word);
            }
            Some(word)
        } else {
            None
        }
    }
}

impl UniswapV3Pool {
    /// The word that the contract holds at `slot` for a pool in this
    /// state; see [`read_raw_spec`].
    pub fn read_raw(&self, slot: U256) -> (r: U256)
        ensures
            r == read_raw_spec(self@, slot),
    {
        proof {
            lemma_halves(slot);
        }
        let small: bool = slot.l1 == 0 && slot.l2 == 0 && slot.l3 == 0;
        if small && slot.l0 == 0 {
            let word: U256 = self.slot0.into_word();
            proof {
                lemma_from_nat_view(word);
            }
            return word;
        }
        if small && slot.l0 == 1 {
            return self.fee_growth_global_0_x128;
        }
        if small && slot.l0 == 2 {
            return self.fee_growth_global_1_x128;
        }
        if small && slot.l0 == 4 {
            let word: U256 = U256::from_u128(self.liquidity);
            proof {
                lemma_from_nat_view(word);
            }
            return word;
        }
        if let Some(word) = self.positions.read_raw(slot) {
            return word;
        }
        if let Some(word) = self.ticks.read_raw(slot) {
            return word;
        }
        if let Some(word) = self.observations.read_raw(slot) {
            return word;
        }
        if let Some(word) = self.tick_bitmap.read_raw(slot) {
            return word;
        }
        U256 { l0: 0, l1: 0, l2: 0, l3: 0 }
    }
}

} // verus!
