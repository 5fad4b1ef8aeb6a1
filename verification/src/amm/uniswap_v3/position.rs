//! Per-position liquidity and owed-fee bookkeeping.

use vstd::prelude::*;

use crate::amm::uniswap_v3::layout::two_pow;
use crate::amm::uniswap_v3::liquidity_math::{add_delta, add_delta_spec};
use crate::amm::uniswap_v3::util::to_u128;
use crate::errors::{AMMError, LogicError};
use crate::primitives::full_math::mul_div;
use crate::primitives::u256::{lemma_halves, lemma_two_pows, two_pow_128, two_pow_256};
use crate::primitives::wrapping::{wrap_u256, wrapping_sub_u256};
use crate::primitives::{Address, U256};

verus! {

/// A liquidity provider's stake in one price range.
#[derive(Clone, Copy, Debug, PartialEq, Eq, Structural)]
pub struct Position {
    pub liquidity: u128,
    pub fee_growth_inside_0_last_x128: U256,
    pub fee_growth_inside_1_last_x128: U256,
    pub tokens_owed0: u128,
    pub tokens_owed1: u128,
}

/// The fees that `liquidity` has earned while the fee growth inside its
/// range went from `last` to `now`: `floor((now - last) * liquidity / 2^128)`,
/// the difference taken modulo 2^256.
pub open spec fn fees_earned_spec(now: U256, last: U256, liquidity: u128) -> nat {
    (wrap_u256(now@ - last@) * (liquidity as nat)) / two_pow_128()
}

/// The owed amount after `earned` has been added, wrapping at 128 bits.
pub open spec fn owed_after_spec(owed: u128, earned: nat) -> u128 {
    ((owed + earned % two_pow_128()) % (two_pow_128() as int)) as u128
}

/// Computes the fees earned; see [`fees_earned_spec`].
pub fn fees_earned(now: U256, last: U256, liquidity: u128) -> (r: U256)
    ensures
        r@ == fees_earned_spec(now, last, liquidity),
{
    let growth: U256 = wrapping_sub_u256(now, last);
    proof {
        crate::primitives::u256::lemma_from_nat_view(growth);
        lemma_halves(growth);
        lemma_two_pows();
        assert(growth@ == wrap_u256(now@ - last@)) by {
            crate::primitives::wrapping::lemma_mod_of_mod(now@ - last@);
            crate::primitives::u256::lemma_from_nat(wrap_u256(now@ - last@));
        }
        let product = growth@ * (liquidity as nat);
        assert(product < two_pow_256() * two_pow_128()) by (nonlinear_arith)
            requires
                product == growth@ * (liquidity as nat),
                growth@ < two_pow_256(),
                (liquidity as nat) < two_pow_128(),
        ;
        assert(product / two_pow_128() < two_pow_256()) by {
            vstd::arithmetic::div_mod::lemma_multiply_divide_lt(
                product as int,
                two_pow_128() as int,
                two_pow_256() as int,
            );
        }
    }
    match mul_div(growth, U256::from_u128(liquidity), U256::pow2(128)) {
        Ok(q) => q,
        Err(_) => {
            assert(false);
            U256::zero()
        },
    }
}

/// Adds earned fees to an owed amount; see [`owed_after_spec`].
pub fn add_owed(owed: u128, earned: U256) -> (r: u128)
    ensures
        r == owed_after_spec(owed, earned@),
{
    let low: u128 = to_u128(earned);
    if owed > u128::MAX - low {
        proof {
            vstd::arithmetic::div_mod::lemma_fundamental_div_mod_converse(
                owed + low,
                two_pow_128() as int,
                1,
                owed + low - two_pow_128(),
            );
        }
        owed - (u128::MAX - low) - 1
    } else {
        proof {
            vstd::arithmetic::div_mod::lemma_fundamental_div_mod_converse(
                owed + low,
                two_pow_128() as int,
                0,
                owed + low,
            );
        }
        owed + low
    }
}

impl Position {
    /// A position that was never touched.
    pub open spec fn empty() -> Position {
        Position {
            liquidity: 0,
            fee_growth_inside_0_last_x128: U256 { l0: 0, l1: 0, l2: 0, l3: 0 },
            fee_growth_inside_1_last_x128: U256 { l0: 0, l1: 0, l2: 0, l3: 0 },
            tokens_owed0: 0,
            tokens_owed1: 0,
        }
    }

    /// A position that was never touched.
    pub fn new() -> (r: Position)
        ensures
            r == Position::empty(),
    {
        Position {
            liquidity: 0,
            fee_growth_inside_0_last_x128: U256 { l0: 0, l1: 0, l2: 0, l3: 0 },
            fee_growth_inside_1_last_x128: U256 { l0: 0, l1: 0, l2: 0, l3: 0 },
            tokens_owed0: 0,
            tokens_owed1: 0,
        }
    }

    /// The liquidity after a change of `liquidity_delta`; a zero change of a
    /// position without liquidity is refused.
    pub open spec fn liquidity_next_spec(self, liquidity_delta: i128) -> Result<u128, AMMError> {
        if liquidity_delta == 0 {
            if self.liquidity > 0 {
                Ok(self.liquidity)
            } else {
                Err(AMMError::LogicError(LogicError::NoPosition))
            }
        } else {
            add_delta_spec(self.liquidity, liquidity_delta)
        }
    }

    /// The position after a liquidity change at the given fee growth inside
    /// its range: the fees earned since the last snapshot are added to the
    /// owed amounts, and the snapshot is renewed.
    pub open spec fn update_spec(
        self,
        liquidity_delta: i128,
        fee_growth_inside_0_x128: U256,
        fee_growth_inside_1_x128: U256,
    ) -> Result<Position, AMMError> {
        match self.liquidity_next_spec(liquidity_delta) {
            Err(e) => Err(e),
            Ok(liquidity_next) => Ok(
                Position {
                    liquidity: liquidity_next,
                    fee_growth_inside_0_last_x128: fee_growth_inside_0_x128,
                    fee_growth_inside_1_last_x128: fee_growth_inside_1_x128,
                    tokens_owed0: owed_after_spec(
                        self.tokens_owed0,
                        fees_earned_spec(
                            fee_growth_inside_0_x128,
                            self.fee_growth_inside_0_last_x128,
                            self.liquidity,
                        ),
                    ),
                    tokens_owed1: owed_after_spec(
                        self.tokens_owed1,
                        fees_earned_spec(
                            fee_growth_inside_1_x128,
                            self.fee_growth_inside_1_last_x128,
                            self.liquidity,
                        ),
                    ),
                },
            ),
        }
    }

    /// Credits accumulated fees to the position and applies the liquidity
    /// change; on an error the position is unchanged.
    pub fn update(
        &mut self,
        liquidity_delta: i128,
        fee_growth_inside_0_x128: U256,
        fee_growth_inside_1_x128: U256,
    ) -> (r: Result<(), AMMError>)
        ensures
            match old(self).update_spec(
                liquidity_delta,
                fee_growth_inside_0_x128,
                fee_growth_inside_1_x128,
            ) {
                Ok(after) => r is Ok && *final(self) == after,
                Err(e) => r == Err::<(), AMMError>(e) && *final(self) == *old(self),
            },
    {
        let liquidity_next: u128 = if liquidity_delta == 0 {
            if self.liquidity == 0 {
                return Err(AMMError::LogicError(LogicError::NoPosition));
            }
            self.liquidity
        } else {
            match add_delta(self.liquidity, liquidity_delta) {
                Ok(next) => next,
                Err(e) => {
                    return Err(e);
                },
            }
        };
        let tokens_owed_0: U256 = fees_earned(
            fee_growth_inside_0_x128,
            self.fee_growth_inside_0_last_x128,
            self.liquidity,
        );
        let tokens_owed_1: U256 = fees_earned(
            fee_growth_inside_1_x128,
            self.fee_growth_inside_1_last_x128,
            self.liquidity,
        );
        if liquidity_delta != 0 {
            self.liquidity = liquidity_next;
        }
        self.fee_growth_inside_0_last_x128 = fee_growth_inside_0_x128;
        self.fee_growth_inside_1_last_x128 = fee_growth_inside_1_x128;
        self.tokens_owed0 = add_owed(self.tokens_owed0, tokens_owed_0);
        self.tokens_owed1 = add_owed(self.tokens_owed1, tokens_owed_1);
        Ok(())
    }

    /// What a collection of up to the requested amounts pays, and the
    /// position afterwards.
    pub open spec fn collect_spec(self, amount_0_requested: u128, amount_1_requested: u128) -> (
        Position,
        u128,
        u128,
    ) {
        let amount0 = if amount_0_requested > self.tokens_owed0 {
            self.tokens_owed0
        } else {
            amount_0_requested
        };
        let amount1 = if amount_1_requested > self.tokens_owed1 {
            self.tokens_owed1
        } else {
            amount_1_requested
        };
        (
            Position {
                tokens_owed0: (self.tokens_owed0 - amount0) as u128,
                tokens_owed1: (self.tokens_owed1 - amount1) as u128,
                ..self
            },
            amount0,
            amount1,
        )
    }

    /// Pays out owed tokens, at most the requested amounts.
    pub fn collect(&mut self, amount_0_requested: u128, amount_1_requested: u128) -> (r: (
        u128,
        u128,
    ))
        ensures
            (*final(self), r.0, r.1) == old(self).collect_spec(
                amount_0_requested,
                amount_1_requested,
            ),
    {
        let amount0: u128 = if amount_0_requested > self.tokens_owed0 {
            self.tokens_owed0
        } else {
            amount_0_requested
        };
        let amount1: u128 = if amount_1_requested > self.tokens_owed1 {
            self.tokens_owed1
        } else {
            amount_1_requested
        };
        if amount0 > 0 {
            self.tokens_owed0 = self.tokens_owed0 - amount0;
        }
        if amount1 > 0 {
            self.tokens_owed1 = self.tokens_owed1 - amount1;
        }
        (amount0, amount1)
    }
}

/// The four storage words of a position: the liquidity; the two fee
/// growth snapshots; and the owed amount of token 1 above that of token 0.
pub open spec fn position_words_spec(position: Position) -> Seq<nat> {
    seq![
        position.liquidity as nat,
        position.fee_growth_inside_0_last_x128@,
        position.fee_growth_inside_1_last_x128@,
        (position.tokens_owed1 as nat) * two_pow(128) + position.tokens_owed0 as nat,
    ]
}

/// The position that four storage words hold.
pub open spec fn position_from_words_spec(w0: U256, w1: U256, w2: U256, w3: U256) -> Position {
    Position {
        liquidity: (w0@ % two_pow(128)) as u128,
        fee_growth_inside_0_last_x128: w1,
        fee_growth_inside_1_last_x128: w2,
        tokens_owed0: (w3@ % two_pow(128)) as u128,
        tokens_owed1: (w3@ / two_pow(128)) as u128,
    }
}

/// The words of a position hold the position.
pub proof fn lemma_position_words_round_trip(position: Position, w0: U256, w1: U256, w2: U256, w3: U256)
    requires
        w0@ == position_words_spec(position)[0],
        w1@ == position_words_spec(position)[1],
        w2@ == position_words_spec(position)[2],
        w3@ == position_words_spec(position)[3],
    ensures
        position_from_words_spec(w0, w1, w2, w3) == position,
{
    crate::primitives::u256::lemma_view_injective(w1, position.fee_growth_inside_0_last_x128);
    crate::primitives::u256::lemma_view_injective(w2, position.fee_growth_inside_1_last_x128);
    vstd::arithmetic::div_mod::lemma_fundamental_div_mod_converse(
        w0@ as int,
        two_pow(128) as int,
        0,
        position.liquidity as int,
    );
    vstd::arithmetic::div_mod::lemma_fundamental_div_mod_converse(
        w3@ as int,
        two_pow(128) as int,
        position.tokens_owed1 as int,
        position.tokens_owed0 as int,
    );
}

impl Position {
    /// Packs the position into its four storage words; see
    /// [`position_words_spec`].
    pub fn encode_storage(&self) -> (r: [U256; 4])
        ensures
            r[0]@ == position_words_spec(*self)[0],
            r[1]@ == position_words_spec(*self)[1],
            r[2]@ == position_words_spec(*self)[2],
            r[3]@ == position_words_spec(*self)[3],
    {
        [
            U256::from_u128(self.liquidity),
            self.fee_growth_inside_0_last_x128,
            self.fee_growth_inside_1_last_x128,
            U256::from_halves(self.tokens_owed1, self.tokens_owed0),
        ]
    }

    /// Reads a position from its four storage words; see
    /// [`position_from_words_spec`].
    pub fn decode_storage(data: &[U256]) -> (r: Position)
        requires
            data@.len() == 4,
        ensures
            r == position_from_words_spec(data@[0], data@[1], data@[2], data@[3]),
    {
        Position {
            liquidity: data[0].low_u128(),
            fee_growth_inside_0_last_x128: data[1],
            fee_growth_inside_1_last_x128: data[2],
            tokens_owed0: data[3].low_u128(),
            tokens_owed1: data[3].high_u128(),
        }
    }
}

/// What identifies a position: its owner and the ticks of its range.
#[derive(Clone, Copy, Debug, PartialEq, Eq, Structural)]
pub struct PositionKey {
    pub owner: Address,
    pub tick_lower: i32,
    pub tick_upper: i32,
}

/// A position together with its key.
#[derive(Clone, Copy, Debug, PartialEq, Eq, Structural)]
pub struct PositionEntry {
    pub key: PositionKey,
    pub position: Position,
}

/// The least index at or after `from` whose entry has `key`, or the length
/// when there is none.
pub open spec fn find_spec(entries: Seq<PositionEntry>, key: PositionKey, from: int) -> int
    decreases entries.len() - from,
{
    if from >= entries.len() {
        entries.len() as int
    } else if entries[from].key == key {
        from
    } else {
        find_spec(entries, key, from + 1)
    }
}

/// The position stored under `key`; a key without an entry has the empty position.
pub open spec fn position_of(entries: Seq<PositionEntry>, key: PositionKey) -> Position {
    let i = find_spec(entries, key, 0);
    if 0 <= i < entries.len() {
        entries[i].position
    } else {
        Position::empty()
    }
}

/// The entries after `position` has been stored under `key`: in place of
/// the entry of `key`, or at the end where there was none.
pub open spec fn set_position_spec(
    entries: Seq<PositionEntry>,
    key: PositionKey,
    position: Position,
) -> Seq<PositionEntry> {
    let i = find_spec(entries, key, 0);
    if 0 <= i < entries.len() {
        entries.update(i, PositionEntry { key, position })
    } else {
        entries.push(PositionEntry { key, position })
    }
}

/// Storing a position changes what is stored under its key and under no other.
pub proof fn lemma_set_position(
    entries: Seq<PositionEntry>,
    key: PositionKey,
    position: Position,
    other: PositionKey,
)
    ensures
        position_of(set_position_spec(entries, key, position), other) == (if other == key {
            position
        } else {
            position_of(entries, other)
        }),
{
    let after = set_position_spec(entries, key, position);
    lemma_find_bounds(entries, key, 0);
    lemma_find_bounds(entries, other, 0);
    let i = find_spec(entries, key, 0);
    if 0 <= i < entries.len() {
        lemma_find_same_keys(after, entries, other, 0);
    } else {
        lemma_find_push(entries, PositionEntry { key, position }, other, 0);
    }
}

/// The index found lies between `from` and the length, and points at the key.
pub proof fn lemma_find_bounds(entries: Seq<PositionEntry>, key: PositionKey, from: int)
    requires
        0 <= from,
    ensures
        from <= find_spec(entries, key, from) || find_spec(entries, key, from) == entries.len(),
        find_spec(entries, key, from) <= entries.len(),
        find_spec(entries, key, from) < entries.len() ==> entries[find_spec(
            entries,
            key,
            from,
        )].key == key,
        forall|j: int| from <= j < find_spec(entries, key, from) ==> entries[j].key != key,
    decreases entries.len() - from,
{
    if from < entries.len() && entries[from].key != key {
        lemma_find_bounds(entries, key, from + 1);
    }
}

/// Two lists with the same keys find the same index.
pub proof fn lemma_find_same_keys(
    a: Seq<PositionEntry>,
    b: Seq<PositionEntry>,
    key: PositionKey,
    from: int,
)
    requires
        0 <= from,
        a.len() == b.len(),
        forall|j: int| 0 <= j < a.len() ==> a[j].key == b[j].key,
    ensures
        find_spec(a, key, from) == find_spec(b, key, from),
    decreases a.len() - from,
{
    if from < a.len() && a[from].key != key {
        lemma_find_same_keys(a, b, key, from + 1);
    }
}

/// Appending an entry changes what is found only for keys that were absent.
pub proof fn lemma_find_push(
    entries: Seq<PositionEntry>,
    entry: PositionEntry,
    key: PositionKey,
    from: int,
)
    requires
        0 <= from <= entries.len(),
    ensures
        find_spec(entries.push(entry), key, from) == (if find_spec(entries, key, from)
            < entries.len() {
            find_spec(entries, key, from)
        } else if entry.key == key {
            entries.len() as int
        } else {
            (entries.len() + 1) as int
        }),
    decreases entries.len() - from,
{
    let pushed = entries.push(entry);
    if from < entries.len() {
        assert(pushed[from] == entries[from]);
        if entries[from].key != key {
            lemma_find_push(entries, entry, key, from + 1);
        }
    } else {
        assert(pushed[from] == entry);
        if entry.key != key {
            assert(find_spec(pushed, key, from + 1) == pushed.len());
        }
    }
}

/// The positions of a pool.
#[derive(Clone, Debug)]
pub struct Positions {
    pub entries: Vec<PositionEntry>,
}

impl View for Positions {
    type V = Seq<PositionEntry>;

    open spec fn view(&self) -> Seq<PositionEntry> {
        self.entries@
    }
}

impl Positions {
    /// No position.
    pub fn new() -> (r: Positions)
        ensures
            r@ == Seq::<PositionEntry>::empty(),
    {
        Positions { entries: Vec::new() }
    }

    /// The index of the entry of `key`, or the number of entries.
    fn find(&self, key: PositionKey) -> (i: usize)
        ensures
            i == find_spec(self@, key, 0),
            i <= self@.len(),
    {
        let mut i: usize = 0;
        while i < self.entries.len()
            invariant
                i <= self@.len(),
                find_spec(self@, key, 0) == find_spec(self@, key, i as int),
            decreases self@.len() - i,
        {
            let entry: &PositionEntry = &self.entries[i];
            if entry.key.owner == key.owner && entry.key.tick_lower == key.tick_lower
                && entry.key.tick_upper == key.tick_upper {
                return i;
            }
            i = i + 1;
        }
        i
    }

    /// The position stored under `key`.
    pub fn get(&self, key: PositionKey) -> (r: Position)
        ensures
            r == position_of(self@, key),
    {
        let i: usize = self.find(key);
        if i < self.entries.len() {
            self.entries[i].position
        } else {
            Position::new()
        }
    }

    /// Stores `position` under `key`.
    pub fn set(&mut self, key: PositionKey, position: Position)
        ensures
            final(self)@ == set_position_spec(old(self)@, key, position),
            position_of(final(self)@, key) == position,
            forall|other: PositionKey|
                other != key ==> position_of(final(self)@, other) == position_of(
                    old(self)@,
                    other,
                ),
    {
        let i: usize = self.find(key);
        proof {
            assert forall|other: PositionKey| true implies position_of(
                set_position_spec(self@, key, position),
                other,
            ) == (if other == key {
                position
            } else {
                position_of(self@, other)
            }) by {
                lemma_set_position(self@, key, position, other);
            }
        }
        if i < self.entries.len() {
            self.entries[i] = PositionEntry { key, position };
        } else {
            self.entries.push(PositionEntry { key, position });
        }
    }
}

} // verus!
