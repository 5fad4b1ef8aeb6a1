//! A copy-on-write store of 32-byte slots: a mutable overlay over a shared base.

use std::collections::HashMap;
use std::sync::Arc;
use vstd::prelude::*;

use crate::primitives::u256::{lemma_digits_unique, two_pow_64};
use crate::primitives::wrapping::{add_u256, wrapping_add_u256};
use crate::primitives::u256::u256_from_nat;
use crate::primitives::U256;

verus! {

broadcast use vstd::std_specs::hash::group_hash_axioms;

/// Calls `Arc::clone` of the standard library.
///
/// Trusted: the clone points to the same value.
#[verifier::external_body]
fn share<T>(this: &Arc<T>) -> (r: Arc<T>)
    ensures
        r == *this,
{
    Arc::clone(this)
}

/// Calls `Arc::try_unwrap` of the standard library.
///
/// Trusted: the value comes back, either taken out or still shared.
#[verifier::external_body]
fn take_or_share<T>(this: Arc<T>) -> (r: Result<T, Arc<T>>)
    ensures
        match r {
            Ok(owned) => owned == *this,
            Err(shared) => shared == this,
        },
{
    Arc::try_unwrap(this)
}

/// The high 128 bits of a slot.
pub open spec fn slot_high(slot: U256) -> u128 {
    (slot.l2 + slot.l3 * two_pow_64()) as u128
}

/// The low 128 bits of a slot.
pub open spec fn slot_low(slot: U256) -> u128 {
    (slot.l0 + slot.l1 * two_pow_64()) as u128
}

/// What is stored under `slot`, if anything.
pub open spec fn stored(words: Map<u128, HashMap<u128, U256>>, slot: U256) -> Option<U256> {
    if words.contains_key(slot_high(slot)) && words[slot_high(slot)]@.contains_key(
        slot_low(slot),
    ) {
        Some(words[slot_high(slot)]@[slot_low(slot)])
    } else {
        None
    }
}

/// Two slots with the same halves are the same slot.
pub proof fn lemma_slot_halves(a: U256, b: U256)
    requires
        slot_high(a) == slot_high(b),
        slot_low(a) == slot_low(b),
    ensures
        a == b,
{
    lemma_digits_unique(a.l0 as int, a.l1 as int, b.l0 as int, b.l1 as int, two_pow_64() as int);
    lemma_digits_unique(a.l2 as int, a.l3 as int, b.l2 as int, b.l3 as int, two_pow_64() as int);
}

/// One layer of slots, keyed by the two halves of the slot number.
#[derive(Clone, Debug)]
pub struct SlotMap {
    pub words: HashMap<u128, HashMap<u128, U256>>,
}

impl View for SlotMap {
    type V = Map<u128, HashMap<u128, U256>>;

    open spec fn view(&self) -> Map<u128, HashMap<u128, U256>> {
        self.words@
    }
}

impl SlotMap {
    /// A layer without slots.
    pub fn new() -> (r: SlotMap)
        ensures
            forall|slot: U256| stored(r@, slot) is None,
    {
        SlotMap { words: HashMap::new() }
    }

    /// What is stored under `slot`, if anything.
    pub fn get(&self, slot: U256) -> (r: Option<U256>)
        ensures
            r == stored(self@, slot),
    {
        let high: u128 = slot.high_u128();
        let low: u128 = slot.low_u128();
        match self.words.get(&high) {
            None => None,
            Some(inner) => match inner.get(&low) {
                None => None,
                Some(value) => Some(*value),
            },
        }
    }

    /// Stores `value` under `slot`.
    pub fn insert(&mut self, slot: U256, value: U256)
        ensures
            forall|other: U256|
                stored(final(self)@, other) == (if other == slot {
                    Some(value)
                } else {
                    stored(old(self)@, other)
                }),
    {
        let high: u128 = slot.high_u128();
        let low: u128 = slot.low_u128();
        let mut inner: HashMap<u128, U256> = match self.words.remove(&high) {
            Some(inner) => inner,
            None => HashMap::new(),
        };
        inner.insert(low, value);
        self.words.insert(high, inner);
        proof {
            assert forall|other: U256| stored(self@, other) == (if other == slot {
                Some(value)
            } else {
                stored(old(self)@, other)
            }) by {
                if slot_high(other) == slot_high(slot) && slot_low(other) == slot_low(slot) {
                    lemma_slot_halves(other, slot);
                }
            }
        }
    }

    /// Drops what is stored under `slot`.
    pub fn remove(&mut self, slot: U256)
        ensures
            forall|other: U256|
                stored(final(self)@, other) == (if other == slot {
                    None::<U256>
                } else {
                    stored(old(self)@, other)
                }),
    {
        let high: u128 = slot.high_u128();
        let low: u128 = slot.low_u128();
        match self.words.remove(&high) {
            Some(inner) => {
                let mut inner: HashMap<u128, U256> = inner;
                inner.remove(&low);
                self.words.insert(high, inner);
            },
            None => {},
        }
        proof {
            assert forall|other: U256| stored(self@, other) == (if other == slot {
                None::<U256>
            } else {
                stored(old(self)@, other)
            }) by {
                if slot_high(other) == slot_high(slot) && slot_low(other) == slot_low(slot) {
                    lemma_slot_halves(other, slot);
                }
            }
        }
    }

    /// A copy of this layer.
    pub fn copy(&self) -> (r: SlotMap)
        ensures
            r@ == self@,
    {
        SlotMap { words: self.words.clone() }
    }
}

/// A layer of slots over a shared store.
#[derive(Clone, Debug)]
pub struct Overlay {
    pub overlay: SlotMap,
    pub underlying: Arc<Storage>,
}

/// A store of slots: a base, or an overlay over another store.
#[derive(Clone, Debug)]
pub enum Storage {
    Root(Arc<SlotMap>),
    Overlay(Overlay),
}

/// The zero word.
pub open spec fn zero_word() -> U256 {
    U256 { l0: 0, l1: 0, l2: 0, l3: 0 }
}

impl Storage {
    /// What a read of `slot` finds: the overlay's word where it has one,
    /// else what the store underneath holds; a slot that no layer holds
    /// reads as `None`.
    pub open spec fn lookup(&self, slot: U256) -> Option<U256>
        decreases self,
    {
        match self {
            Storage::Root(map) => stored(map@, slot),
            Storage::Overlay(layer) => match stored(layer.overlay@, slot) {
                Some(value) => Some(value),
                None => layer.underlying.lookup(slot),
            },
        }
    }

    /// The word that a read of `slot` returns: what `lookup` finds, or zero.
    pub open spec fn value_at(&self, slot: U256) -> U256 {
        match self.lookup(slot) {
            Some(value) => value,
            None => zero_word(),
        }
    }

    /// What the top layer itself holds, for every slot: the words of a
    /// base, or those of an overlay without the store underneath.
    pub open spec fn top(&self) -> Map<U256, Option<U256>> {
        match self {
            Storage::Root(map) => Map::total(|slot: U256| stored(map@, slot)),
            Storage::Overlay(layer) => Map::total(|slot: U256| stored(layer.overlay@, slot)),
        }
    }

    /// Whether `after` is of this store's kind and, where this store is an
    /// overlay, lies over the same store.
    pub open spec fn same_base(&self, after: Storage) -> bool {
        match self {
            Storage::Root(_) => after is Root,
            Storage::Overlay(before) => after matches Storage::Overlay(layer) && layer.underlying
                == before.underlying,
        }
    }

    /// An empty base.
    pub fn new() -> (r: Storage)
        ensures
            r is Root,
            forall|slot: U256| r.lookup(slot) is None,
    {
        Storage::Root(Arc::new(SlotMap::new()))
    }

    /// A fork of this store: a store that reads as this one does and whose
    /// writes this store never sees. A fork of a base shares the base.
    pub fn shallow_clone(&self) -> (r: Storage)
        ensures
            forall|slot: U256| r.lookup(slot) == self.lookup(slot),
            match self {
                Storage::Root(_) => r matches Storage::Overlay(layer) && *layer.underlying == *self
                    && forall|slot: U256| r.top()[slot] is None,
                Storage::Overlay(_) => self.same_base(r) && r.top() == self.top(),
            },
    {
        match self {
            Storage::Root(map) => Storage::Overlay(
                Overlay {
                    overlay: SlotMap::new(),
                    underlying: Arc::new(Storage::Root(share(map))),
                },
            ),
            Storage::Overlay(layer) => Storage::Overlay(
                Overlay { overlay: layer.overlay.copy(), underlying: share(&layer.underlying) },
            ),
        }
    }

    /// Reads `slot`: the overlay first, then the chain of stores underneath.
    pub fn get(&self, slot: U256) -> (r: U256)
        ensures
            r == self.value_at(slot),
    {
        match self.find(slot) {
            Some(value) => value,
            None => U256 { l0: 0, l1: 0, l2: 0, l3: 0 },
        }
    }

    /// What a read of `slot` finds, if any layer holds the slot.
    pub fn find(&self, slot: U256) -> (r: Option<U256>)
        ensures
            r == self.lookup(slot),
        decreases self,
    {
        match self {
            Storage::Root(map) => map.get(slot),
            Storage::Overlay(layer) => match layer.overlay.get(slot) {
                Some(value) => Some(value),
                None => layer.underlying.find(slot),
            },
        }
    }

    /// Writes `data` to `slot` in the top layer.
    pub fn insert(&mut self, slot: U256, data: U256)
        ensures
            forall|other: U256|
                final(self).lookup(other) == (if other == slot {
                    Some(data)
                } else {
                    old(self).lookup(other)
                }),
            old(self).same_base(*final(self)),
            final(self).top() == old(self).top().insert(slot, Some(data)),
    {
        let mut whole: Storage = Storage::Root(Arc::new(SlotMap::new()));
        core::mem::swap(self, &mut whole);
        match whole {
            Storage::Root(shared) => {
                let mut map: SlotMap = match take_or_share(shared) {
                    Ok(owned) => owned,
                    Err(still_shared) => still_shared.copy(),
                };
                map.insert(slot, data);
                *self = Storage::Root(Arc::new(map));
            },
            Storage::Overlay(layer) => {
                let mut layer: Overlay = layer;
                layer.overlay.insert(slot, data);
                *self = Storage::Overlay(layer);
            },
        }
        assert(self.top() =~= old(self).top().insert(slot, Some(data)));
    }

    /// Drops `slot` from the top layer; what a store underneath holds under
    /// the slot shows again.
    pub fn remove(&mut self, slot: U256)
        ensures
            forall|other: U256|
                other != slot ==> final(self).lookup(other) == old(self).lookup(other),
            match *old(self) {
                Storage::Root(_) => final(self).lookup(slot) is None,
                Storage::Overlay(before) => final(self).lookup(slot) == before.underlying.lookup(
                    slot,
                ),
            },
            old(self).same_base(*final(self)),
            final(self).top() == old(self).top().insert(slot, None),
    {
        let mut whole: Storage = Storage::Root(Arc::new(SlotMap::new()));
        core::mem::swap(self, &mut whole);
        match whole {
            Storage::Root(shared) => {
                let mut map: SlotMap = match take_or_share(shared) {
                    Ok(owned) => owned,
                    Err(still_shared) => still_shared.copy(),
                };
                map.remove(slot);
                *self = Storage::Root(Arc::new(map));
            },
            Storage::Overlay(layer) => {
                let mut layer: Overlay = layer;
                layer.overlay.remove(slot);
                *self = Storage::Overlay(layer);
            },
        }
        assert(self.top() =~= old(self).top().insert(slot, None));
    }

    /// Reads the `length` slots from `slot` on.
    pub fn get_multiple(&self, slot: U256, length: usize) -> (r: Vec<U256>)
        ensures
            r@.len() == length,
            forall|i: int|
                0 <= i < length ==> r@[i] == self.value_at(
                    add_u256(slot, u256_from_nat(i as nat)),
                ),
    {
        broadcast use crate::primitives::u256::lemma_from_nat_view;

        let mut slots: Vec<U256> = Vec::new();
        let mut i: usize = 0;
        while i < length
            invariant
                i <= length,
                slots@.len() == i,
                forall|j: int|
                    0 <= j < i ==> slots@[j] == self.value_at(
                        add_u256(slot, u256_from_nat(j as nat)),
                    ),
            decreases length - i,
        {
            slots.push(self.get(wrapping_add_u256(slot, U256::from_u64(i as u64))));
            i = i + 1;
        }
        slots
    }

    /// Writes `data` to the slots from `slot` on, one word to a slot, in
    /// the top layer.
    pub fn insert_multiple(&mut self, slot: U256, data: &[U256])
        ensures
            final(self).lookup_all() == written_spec(old(self).lookup_all(), slot, data@, data@.len()),
            final(self).top() == written_spec(old(self).top(), slot, data@, data@.len()),
            old(self).same_base(*final(self)),
    {
        broadcast use crate::primitives::u256::lemma_from_nat_view;

        let mut i: usize = 0;
        while i < data.len()
            invariant
                i <= data@.len(),
                self.lookup_all() == written_spec(old(self).lookup_all(), slot, data@, i as nat),
                self.top() == written_spec(old(self).top(), slot, data@, i as nat),
                old(self).same_base(*self),
            decreases data@.len() - i,
        {
            let ghost before = self.lookup_all();
            self.insert(wrapping_add_u256(slot, U256::from_u64(i as u64)), data[i]);
            assert(self.lookup_all() =~= before.insert(
                add_u256(slot, u256_from_nat(i as nat)),
                Some(data@[i as int]),
            ));
            i = i + 1;
        }
    }

    /// What a read finds, for every slot.
    pub open spec fn lookup_all(&self) -> Map<U256, Option<U256>> {
        Map::total(|slot: U256| self.lookup(slot))
    }

    /// Makes sure that the top layer holds `slot`: where only a store
    /// underneath holds it, its word is copied up. Returns the word, or
    /// `None` where no layer holds the slot. Reads are as before, and so
    /// is the store underneath.
    pub fn entry(&mut self, slot: U256) -> (r: Option<U256>)
        ensures
            r == old(self).lookup(slot),
            forall|other: U256| final(self).lookup(other) == old(self).lookup(other),
            old(self).same_base(*final(self)),
            final(self).top() == (match r {
                Some(value) => old(self).top().insert(slot, Some(value)),
                None => old(self).top(),
            }),
    {
        let found: Option<U256> = self.find(slot);
        match found {
            Some(value) => {
                self.insert(slot, value);
            },
            None => {},
        }
        found
    }
}

/// What every slot reads as after the first `count` words of `data` have
/// been written to the slots from `slot` on.
pub open spec fn written_spec(
    before: Map<U256, Option<U256>>,
    slot: U256,
    data: Seq<U256>,
    count: nat,
) -> Map<U256, Option<U256>>
    decreases count,
{
    if count == 0 {
        before
    } else {
        written_spec(before, slot, data, (count - 1) as nat).insert(
            add_u256(slot, u256_from_nat((count - 1) as nat)),
            Some(data[count - 1]),
        )
    }
}

impl Default for Storage {
    fn default() -> (r: Storage)
        ensures
            forall|slot: U256| r.lookup(slot) is None,
    {
        Storage::new()
    }
}

} // verus!
