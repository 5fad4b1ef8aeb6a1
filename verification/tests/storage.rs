use amms::amm::storage::{SlotMap, Storage};
use amms::primitives::U256;

fn n(x: u64) -> U256 {
    U256::from_u64(x)
}

fn base_with(slot: u64, value: u64) -> Storage {
    let mut base = Storage::new();
    base.insert(n(slot), n(value));
    base
}

#[test]
fn a_fork_reads_its_own_write_and_the_base_keeps_its_word() {
    let base = base_with(5, 1);
    let mut fork = base.shallow_clone();
    assert_eq!(fork.get(n(5)), n(1));
    fork.insert(n(5), n(7));
    assert_eq!(fork.get(n(5)), n(7));
    assert_eq!(base.get(n(5)), n(1));
    let second = base.shallow_clone();
    assert_eq!(second.get(n(5)), n(1));
}

#[test]
fn an_unwritten_slot_reads_as_zero() {
    let base = Storage::new();
    assert_eq!(base.get(n(1)), U256::zero());
    assert_eq!(base.find(n(1)), None);
    assert_eq!(Storage::default().get(U256::max_value()), U256::zero());
    assert_eq!(base.shallow_clone().find(n(1)), None);
}

#[test]
fn slots_are_told_apart_by_all_their_bits() {
    let mut base = Storage::new();
    let low = U256::from_limbs([1, 0, 0, 0]);
    let mid = U256::from_limbs([0, 1, 0, 0]);
    let high = U256::from_limbs([1, 0, 1, 0]);
    let top = U256::from_limbs([1, 0, 0, 1]);
    base.insert(low, n(10));
    base.insert(mid, n(20));
    base.insert(high, n(30));
    base.insert(top, n(40));
    assert_eq!(base.get(low), n(10));
    assert_eq!(base.get(mid), n(20));
    assert_eq!(base.get(high), n(30));
    assert_eq!(base.get(top), n(40));
    base.insert(high, n(31));
    assert_eq!(base.get(high), n(31));
    assert_eq!(base.get(low), n(10));
    base.remove(low);
    assert_eq!(base.find(low), None);
    assert_eq!(base.get(high), n(31));
    assert_eq!(base.get(top), n(40));
}

#[test]
fn a_read_walks_the_chain_of_stores() {
    let mut base = Storage::new();
    base.insert(n(1), n(11));
    base.insert(n(2), n(12));
    let mut middle = base.shallow_clone();
    middle.insert(n(2), n(22));
    middle.insert(n(3), n(23));
    let frozen = std::sync::Arc::new(middle);
    let mut top = Storage::Overlay(amms::amm::storage::Overlay {
        overlay: SlotMap::new(),
        underlying: frozen.clone(),
    });
    top.insert(n(3), n(33));
    assert_eq!(top.get(n(1)), n(11));
    assert_eq!(top.get(n(2)), n(22));
    assert_eq!(top.get(n(3)), n(33));
    assert_eq!(top.get(n(4)), U256::zero());
    assert_eq!(frozen.get(n(3)), n(23));
    assert_eq!(base.get(n(2)), n(12));
}

#[test]
fn remove_touches_the_top_layer_only() {
    let base = base_with(5, 1);
    let mut fork = base.shallow_clone();
    fork.insert(n(5), n(7));
    fork.insert(n(6), n(8));
    fork.remove(n(5));
    assert_eq!(fork.get(n(5)), n(1));
    fork.remove(n(6));
    assert_eq!(fork.find(n(6)), None);
    fork.remove(n(5));
    assert_eq!(fork.get(n(5)), n(1));
    assert_eq!(base.get(n(5)), n(1));
}

#[test]
fn a_fork_of_a_fork_is_independent() {
    let base = base_with(5, 1);
    let mut first = base.shallow_clone();
    first.insert(n(6), n(2));
    let mut second = first.shallow_clone();
    second.insert(n(6), n(3));
    second.insert(n(7), n(4));
    assert_eq!(first.get(n(6)), n(2));
    assert_eq!(first.find(n(7)), None);
    assert_eq!(second.get(n(5)), n(1));
    assert_eq!(second.get(n(6)), n(3));
    first.insert(n(5), n(9));
    assert_eq!(second.get(n(5)), n(1));
}

#[test]
fn writes_to_a_base_that_is_shared_do_not_reach_its_forks() {
    let mut base = base_with(5, 1);
    let fork = base.shallow_clone();
    base.insert(n(5), n(2));
    base.insert(n(6), n(3));
    assert_eq!(base.get(n(5)), n(2));
    assert_eq!(fork.get(n(5)), n(1));
    assert_eq!(fork.find(n(6)), None);
    base.remove(n(5));
    assert_eq!(base.find(n(5)), None);
    assert_eq!(fork.get(n(5)), n(1));
}

#[test]
fn runs_of_slots() {
    let mut base = Storage::new();
    base.insert_multiple(n(10), &[n(1), n(2), n(3)]);
    assert_eq!(base.get_multiple(n(9), 5), vec![n(0), n(1), n(2), n(3), n(0)]);
    assert_eq!(base.get_multiple(n(9), 0), vec![]);
    let mut fork = base.shallow_clone();
    fork.insert_multiple(n(11), &[n(7)]);
    fork.insert_multiple(n(11), &[]);
    assert_eq!(fork.get_multiple(n(10), 3), vec![n(1), n(7), n(3)]);
    // the slot number wraps at 256 bits
    fork.insert_multiple(U256::max_value(), &[n(5), n(6)]);
    assert_eq!(fork.get(U256::max_value()), n(5));
    assert_eq!(fork.get(U256::zero()), n(6));
    assert_eq!(fork.get_multiple(U256::max_value(), 2), vec![n(5), n(6)]);
}

#[test]
fn entry_copies_a_word_up_into_the_top_layer() {
    let base = base_with(5, 1);
    let mut fork = base.shallow_clone();
    match &fork {
        Storage::Overlay(layer) => assert_eq!(layer.overlay.get(n(5)), None),
        Storage::Root(_) => panic!("a fork of a base is an overlay"),
    }
    assert_eq!(fork.entry(n(5)), Some(n(1)));
    match &fork {
        Storage::Overlay(layer) => assert_eq!(layer.overlay.get(n(5)), Some(n(1))),
        Storage::Root(_) => panic!("a fork of a base is an overlay"),
    }
    assert_eq!(fork.entry(n(6)), None);
    assert_eq!(fork.find(n(6)), None);
    assert_eq!(fork.get(n(5)), n(1));
    let mut root = base_with(1, 2);
    assert_eq!(root.entry(n(1)), Some(n(2)));
    assert_eq!(root.entry(n(2)), None);
}

#[test]
fn a_layer_copy_is_independent() {
    let mut layer = SlotMap::new();
    layer.insert(n(1), n(2));
    let mut copy = layer.copy();
    copy.insert(n(1), n(3));
    copy.remove(n(9));
    assert_eq!(layer.get(n(1)), Some(n(2)));
    assert_eq!(copy.get(n(1)), Some(n(3)));
}
