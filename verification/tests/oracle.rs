use amms::amm::uniswap_v3::oracle::{
    interpolate, lte, next_slot, transform, Observation, Observations,
};
use amms::amm::uniswap_v3::UniswapV3Pool;
use amms::errors::{AMMError, ArithmeticError, LogicError};
use amms::primitives::{Address, U256};

fn obs(time: u32, tick_cumulative: i64, spl: U256, initialized: bool) -> Observation {
    Observation {
        block_timestamp: time,
        tick_cumulative,
        seconds_per_liquidity_cumulative_x128: spl,
        initialized,
    }
}

fn q128() -> U256 {
    U256::pow2(128)
}

#[test]
fn transform_accumulates_tick_and_seconds_per_liquidity() {
    let last = obs(100, 7, U256::from_u64(5), true);
    let next = transform(&last, 110, -3, 4);
    assert_eq!(next.block_timestamp, 110);
    assert_eq!(next.tick_cumulative, 7 - 30);
    assert_eq!(
        next.seconds_per_liquidity_cumulative_x128,
        U256::from_u64(5).wrapping_add(U256::from_u64(10).checked_mul(q128()).unwrap().shr(2))
    );
    assert!(next.initialized);
}

#[test]
fn transform_counts_zero_liquidity_as_one() {
    let last = obs(0, 0, U256::zero(), true);
    let next = transform(&last, 3, 100, 0);
    assert_eq!(next.tick_cumulative, 300);
    assert_eq!(
        next.seconds_per_liquidity_cumulative_x128,
        U256::from_u64(3).checked_mul(q128()).unwrap()
    );
}

#[test]
fn transform_wraps_the_clock_and_the_accumulators() {
    let last = obs(u32::MAX - 1, 0, U256::pow2(160).wrapping_sub(U256::one()), true);
    let next = transform(&last, 2, 1, u128::MAX);
    assert_eq!(next.tick_cumulative, 4);
    // 4 * 2^128 / (2^128 - 1) is 4, and the sum wraps at 160 bits
    assert_eq!(next.seconds_per_liquidity_cumulative_x128, U256::from_u64(3));
    let big = obs(0, (1i64 << 55) - 1, U256::zero(), true);
    assert_eq!(transform(&big, 1, 1, 1).tick_cumulative, -(1i64 << 55));
    let far = transform(&obs(0, 0, U256::zero(), true), u32::MAX, i32::MIN, 1);
    // -2^31 * (2^32 - 1) wrapped to 56 bits
    assert_eq!(far.tick_cumulative, 2147483648);
}

#[test]
fn lte_compares_times_on_a_wrapping_clock() {
    assert!(lte(10, 3, 5));
    assert!(lte(10, 5, 5));
    assert!(!lte(10, 6, 5));
    // 4294967000 lies before the wrap, 5 after it
    assert!(lte(10, 4294967000, 5));
    assert!(!lte(10, 5, 4294967000));
    assert!(lte(10, 4294967000, 4294967001));
    assert!(!lte(10, 4294967001, 4294967000));
    assert!(lte(10, 11, 10));
    assert!(!lte(10, 10, 11));
}

#[test]
fn initialize_writes_the_first_slot() {
    let mut ring = Observations::new();
    assert_eq!(ring.initialize(77), (1, 1));
    assert_eq!(ring.get(0), obs(77, 1, U256::zero(), true));
    assert_eq!(ring.get(1), obs(0, 0, U256::zero(), false));
}

#[test]
fn next_slot_moves_around_the_ring_and_takes_the_grown_size() {
    assert_eq!(next_slot(0, 1, 1), (0, 1));
    assert_eq!(next_slot(0, 1, 3), (1, 3));
    assert_eq!(next_slot(1, 3, 5), (2, 3));
    assert_eq!(next_slot(2, 3, 5), (3, 5));
    assert_eq!(next_slot(2, 3, 3), (0, 3));
    assert_eq!(next_slot(65534, 65535, 65535), (0, 65535));
}

#[test]
fn write_is_a_no_op_within_one_timestamp() {
    let mut ring = Observations::new();
    ring.initialize(5);
    assert_eq!(ring.write(0, 5, 3, 2, 1, 4), (0, 1));
    assert_eq!(ring.get(0), obs(5, 1, U256::zero(), true));
    assert_eq!(ring.get(1), obs(0, 0, U256::zero(), false));
}

#[test]
fn write_overwrites_the_only_slot_of_a_ring_of_one() {
    let mut ring = Observations::new();
    ring.initialize(5);
    assert_eq!(ring.write(0, 8, 3, 2, 1, 1), (0, 1));
    assert_eq!(
        ring.get(0),
        obs(8, 1 + 9, U256::from_u64(3).checked_mul(q128()).unwrap().shr(1), true)
    );
}

#[test]
fn observe_single_now_returns_what_was_just_written() {
    let mut ring = Observations::new();
    ring.initialize(5);
    ring.grow(1, 3);
    let (index, cardinality) = ring.write(0, 9, 50, 4, 1, 3);
    assert_eq!((index, cardinality), (1, 3));
    let written = ring.get(1);
    assert_eq!(written, obs(9, 201, q128(), true));
    assert_eq!(
        ring.observe_single(9, 0, -7, index, 1000, cardinality),
        Ok((written.tick_cumulative, written.seconds_per_liquidity_cumulative_x128))
    );
    assert_eq!(ring.observe_latest(9, -7, index, 1000), (201, q128()));
    // later on, the latest observation is carried forward
    assert_eq!(
        ring.observe_single(11, 0, -7, index, 2, cardinality),
        Ok((201 - 14, q128().wrapping_add(q128())))
    );
}

#[test]
fn grow_prepares_slots_and_keeps_what_was_written() {
    let mut ring = Observations::new();
    ring.initialize(5);
    ring.write(0, 8, 1, 1, 1, 1);
    let first = ring.get(0);
    assert_eq!(ring.grow(1, 4), 4);
    assert_eq!(ring.get(0), first);
    for slot in 1..4 {
        assert_eq!(ring.get(slot), obs(1, 0, U256::zero(), false));
    }
    assert_eq!(ring.get(4), obs(0, 0, U256::zero(), false));
    assert_eq!(ring.grow(4, 3), 4);
    assert_eq!(ring.grow(4, 4), 4);
    assert_eq!(ring.get(0), first);
}

fn filled_ring() -> (Observations, u16, u16) {
    // observations at times 10, 20, 30 with tick 1 and liquidity 1 in between
    let mut ring = Observations::new();
    ring.initialize(10);
    ring.grow(1, 4);
    let (i1, c1) = ring.write(0, 20, 1, 1, 1, 4);
    let (i2, c2) = ring.write(i1, 30, 1, 1, c1, 4);
    (ring, i2, c2)
}

#[test]
fn observe_single_finds_an_exact_observation() {
    let (ring, index, cardinality) = filled_ring();
    assert_eq!((index, cardinality), (2, 4));
    assert_eq!(
        ring.observe_single(30, 10, 1, index, 1, cardinality),
        Ok((11, U256::from_u64(10).checked_mul(q128()).unwrap()))
    );
    assert_eq!(ring.observe_single(30, 20, 1, index, 1, cardinality), Ok((1, U256::zero())));
}

#[test]
fn observe_single_interpolates_between_observations() {
    let (ring, index, cardinality) = filled_ring();
    assert_eq!(
        ring.observe_single(30, 5, 1, index, 1, cardinality),
        Ok((16, U256::from_u64(15).checked_mul(q128()).unwrap()))
    );
    assert_eq!(
        ring.observe_single(33, 16, 1, index, 1, cardinality),
        Ok((8, U256::from_u64(7).checked_mul(q128()).unwrap()))
    );
}

#[test]
fn observe_single_carries_the_latest_observation_forward() {
    let (ring, index, cardinality) = filled_ring();
    // time 40, two seconds ago: target 38 lies after the latest observation
    assert_eq!(
        ring.observe_single(40, 2, 5, index, 2, cardinality),
        Ok((21 + 40, U256::from_u64(24).checked_mul(q128()).unwrap()))
    );
}

#[test]
fn observe_single_refuses_a_time_before_the_oldest_observation() {
    let (ring, index, cardinality) = filled_ring();
    assert_eq!(
        ring.observe_single(30, 25, 1, index, 1, cardinality),
        Err(AMMError::LogicError(LogicError::ObservationTooOld))
    );
}

#[test]
fn binary_search_and_surrounding_observations() {
    let (ring, index, cardinality) = filled_ring();
    assert_eq!(
        ring.binary_search(30, 15, index, cardinality),
        Some((ring.get(0), ring.get(1)))
    );
    assert_eq!(
        ring.binary_search(30, 25, index, cardinality),
        Some((ring.get(1), ring.get(2)))
    );
    assert_eq!(
        ring.get_surrounding_observations(30, 25, 1, index, 1, cardinality),
        Ok((ring.get(1), ring.get(2)))
    );
    assert_eq!(
        ring.get_surrounding_observations(30, 30, 1, index, 1, cardinality),
        Ok((ring.get(2), obs(0, 0, U256::zero(), false)))
    );
    let empty = Observations::new();
    assert_eq!(empty.binary_search(30, 15, 0, 1), None);
}

#[test]
fn interpolate_divides_towards_zero_and_refuses_equal_times() {
    let before = obs(10, 0, U256::zero(), true);
    let after = obs(13, -10, U256::from_u64(10), true);
    // -10 / 3 is -3 towards zero; two seconds in: -6
    assert_eq!(interpolate(before, after, 12), Ok((-6, U256::from_u64(6))));
    assert_eq!(interpolate(before, after, 10), Ok((0, U256::zero())));
    assert_eq!(interpolate(before, after, 13), Ok((-10, U256::from_u64(10))));
    let same = obs(10, 5, U256::one(), true);
    assert_eq!(
        interpolate(before, same, 11),
        Err(AMMError::ArithmeticError(ArithmeticError::MulDivError))
    );
}

#[test]
fn observe_answers_every_query_or_fails_on_the_first_bad_one() {
    let (ring, index, cardinality) = filled_ring();
    let q = q128();
    assert_eq!(
        ring.observe(30, &[0, 5, 10, 20], 1, index, 1, cardinality),
        Ok((
            vec![21, 16, 11, 1],
            vec![
                U256::from_u64(20).checked_mul(q).unwrap(),
                U256::from_u64(15).checked_mul(q).unwrap(),
                U256::from_u64(10).checked_mul(q).unwrap(),
                U256::zero()
            ]
        ))
    );
    assert_eq!(ring.observe(30, &[], 1, index, 1, cardinality), Ok((vec![], vec![])));
    assert_eq!(
        ring.observe(30, &[0, 25, 5], 1, index, 1, cardinality),
        Err(AMMError::LogicError(LogicError::ObservationTooOld))
    );
}

#[test]
fn the_pool_keeps_its_ring_of_observations() {
    let zero = Address::zero();
    let mut pool = UniswapV3Pool::new(zero, zero, 18, zero, 18, 3000, 0, U256::pow2(96), 0, 60);
    assert_eq!(pool.observation_initialize(10), (1, 1));
    assert_eq!(pool.observation_grow(1, 3), 3);
    assert_eq!(pool.observation_write(0, 20, 1, 1, 1, 3), (1, 3));
    assert_eq!(pool.observe_single(20, 0, 1, 1, 1, 3), Ok((11, q128().checked_mul(U256::from_u64(10)).unwrap())));
    assert_eq!(pool.observe_single(20, 5, 1, 1, 1, 3), Ok((6, q128().checked_mul(U256::from_u64(5)).unwrap())));
    assert!(UniswapV3Pool::lte(10, 3, 5));
    assert_eq!(
        UniswapV3Pool::observation_transform(&pool.observations.get(1), 21, 2, 1).tick_cumulative,
        13
    );
    assert_eq!(pool.binary_search(20, 15, 1, 3), Some((pool.observations.get(0), pool.observations.get(1))));
    assert_eq!(
        pool.observe(20, &[0, 10], 1, 1, 1, 3),
        Ok((vec![11, 1], vec![q128().checked_mul(U256::from_u64(10)).unwrap(), U256::zero()]))
    );
    assert_eq!(
        pool.get_surrounding_observations(20, 20, 1, 1, 1, 3),
        Ok((pool.observations.get(1), obs(0, 0, U256::zero(), false)))
    );
}

#[test]
fn write_within_one_timestamp_is_a_no_op_on_a_ring_without_observations() {
    // slot 0 of an empty ring reads as unwritten, from time 0
    let mut ring = Observations::new();
    assert!(ring.writable(0, 0, 0));
    assert!(!ring.writable(0, 7, 0));
    assert!(ring.writable(0, 7, 1));
    assert_eq!(ring.write(0, 0, 3, 2, 0, 0), (0, 0));
    assert_eq!(ring.get(0), obs(0, 0, U256::zero(), false));
    // the same holds of a written slot while the count is still zero
    ring.save(2, obs(9, 4, U256::from_u64(5), true));
    assert!(ring.writable(2, 9, 0));
    assert_eq!(ring.write(2, 9, 3, 2, 0, 5), (2, 0));
    assert_eq!(ring.get(2), obs(9, 4, U256::from_u64(5), true));
    // through the pool
    let zero = Address::zero();
    let mut pool = UniswapV3Pool::new(zero, zero, 18, zero, 18, 3000, 0, U256::pow2(96), 0, 60);
    assert_eq!(pool.observation_write(0, 0, 3, 2, 0, 0), (0, 0));
    assert_eq!(pool.observations.get(0), obs(0, 0, U256::zero(), false));
}

#[test]
fn observe_single_now_needs_no_observation() {
    let ring = Observations::new();
    assert_eq!(ring.observe_single(0, 0, 5, 0, 7, 0), Ok((0, U256::zero())));
    // 10 seconds at tick 5 and liquidity 4 since the unwritten slot
    assert_eq!(
        ring.observe_single(10, 0, 5, 0, 4, 0),
        Ok((50, U256::from_u64(10).checked_mul(q128()).unwrap().shr(2)))
    );
    let zero = Address::zero();
    let pool = UniswapV3Pool::new(zero, zero, 18, zero, 18, 3000, 0, U256::pow2(96), 0, 60);
    assert_eq!(pool.observe_single(10, 0, 5, 0, 1, 0), Ok((50, U256::from_u64(10).checked_mul(q128()).unwrap())));
}
