use amms::amm::uniswap_v3::position::{
    add_owed, fees_earned, Position, PositionKey, Positions,
};
use amms::errors::{AMMError, LogicError};
use amms::primitives::{Address, U256};

fn q128() -> U256 {
    U256::pow2(128)
}

fn key(owner: u128, lower: i32, upper: i32) -> PositionKey {
    PositionKey { owner: Address { high: 0, low: owner }, tick_lower: lower, tick_upper: upper }
}

#[test]
fn fees_earned_is_growth_times_liquidity_over_2_to_128() {
    let now = U256::from_u64(3).checked_mul(q128()).unwrap();
    assert_eq!(fees_earned(now, U256::zero(), 10), U256::from_u64(30));
    // growth of 2.5 units per liquidity on liquidity 3: floor(7.5)
    let half = q128().shr(1);
    let last = U256::from_u64(7);
    let now = last.wrapping_add(q128()).wrapping_add(q128()).wrapping_add(half);
    assert_eq!(fees_earned(now, last, 3), U256::from_u64(7));
    assert_eq!(fees_earned(now, now, u128::MAX), U256::zero());
}

#[test]
fn fees_earned_takes_the_growth_modulo_2_to_256() {
    // the counter has wrapped: now is 5, the snapshot is 2^256 - 2^128 + 5
    let last = U256::zero().wrapping_sub(q128()).wrapping_add(U256::from_u64(5));
    assert_eq!(fees_earned(U256::from_u64(5), last, 42), U256::from_u64(42));
    // a snapshot above the counter reads as a huge growth
    assert_eq!(
        fees_earned(U256::zero(), U256::one(), 1),
        U256::pow2(128).wrapping_sub(U256::one())
    );
}

#[test]
fn owed_amounts_wrap_at_128_bits() {
    assert_eq!(add_owed(5, U256::from_u64(7)), 12);
    assert_eq!(add_owed(u128::MAX, U256::from_u64(2)), 1);
    assert_eq!(add_owed(1, U256::pow2(128).wrapping_add(U256::from_u64(3))), 4);
}

#[test]
fn update_credits_fees_and_renews_the_snapshot() {
    let mut position = Position {
        liquidity: 10,
        fee_growth_inside_0_last_x128: q128(),
        fee_growth_inside_1_last_x128: U256::zero(),
        tokens_owed0: 1,
        tokens_owed1: 2,
    };
    let fg0 = U256::from_u64(4).checked_mul(q128()).unwrap();
    let fg1 = q128().shr(1);
    assert_eq!(position.update(5, fg0, fg1), Ok(()));
    assert_eq!(
        position,
        Position {
            liquidity: 15,
            fee_growth_inside_0_last_x128: fg0,
            fee_growth_inside_1_last_x128: fg1,
            tokens_owed0: 31,
            tokens_owed1: 7,
        }
    );
    assert_eq!(position.update(-15, fg0, fg1), Ok(()));
    assert_eq!(position.liquidity, 0);
    assert_eq!((position.tokens_owed0, position.tokens_owed1), (31, 7));
}

#[test]
fn update_pokes_a_position_with_liquidity() {
    let mut position = Position { liquidity: 4, ..Position::new() };
    assert_eq!(position.update(0, q128(), U256::zero()), Ok(()));
    assert_eq!(position.liquidity, 4);
    assert_eq!(position.tokens_owed0, 4);
    assert_eq!(position.fee_growth_inside_0_last_x128, q128());
}

#[test]
fn update_reports_its_errors_and_changes_nothing() {
    let mut empty = Position::new();
    assert_eq!(
        empty.update(0, q128(), q128()),
        Err(AMMError::LogicError(LogicError::NoPosition))
    );
    assert_eq!(empty, Position::new());
    let mut small = Position { liquidity: 4, ..Position::new() };
    assert_eq!(
        small.update(-5, q128(), q128()),
        Err(AMMError::LogicError(LogicError::LiquiditySub))
    );
    assert_eq!(small, Position { liquidity: 4, ..Position::new() });
    let mut full = Position { liquidity: u128::MAX, ..Position::new() };
    assert_eq!(
        full.update(1, U256::zero(), U256::zero()),
        Err(AMMError::LogicError(LogicError::LiquidityAdd))
    );
}

#[test]
fn collect_pays_at_most_what_is_owed() {
    let mut position = Position { tokens_owed0: 10, tokens_owed1: 3, ..Position::new() };
    assert_eq!(position.collect(4, 5), (4, 3));
    assert_eq!((position.tokens_owed0, position.tokens_owed1), (6, 0));
    assert_eq!(position.collect(u128::MAX, u128::MAX), (6, 0));
    assert_eq!((position.tokens_owed0, position.tokens_owed1), (0, 0));
    assert_eq!(position.collect(1, 1), (0, 0));
}

#[test]
fn positions_are_kept_by_owner_and_range() {
    let mut positions = Positions::new();
    assert_eq!(positions.get(key(1, -60, 60)), Position::new());
    let a = Position { liquidity: 1, ..Position::new() };
    let b = Position { liquidity: 2, ..Position::new() };
    let c = Position { liquidity: 3, ..Position::new() };
    positions.set(key(1, -60, 60), a);
    positions.set(key(2, -60, 60), b);
    positions.set(key(1, -60, 120), c);
    assert_eq!(positions.get(key(1, -60, 60)), a);
    assert_eq!(positions.get(key(2, -60, 60)), b);
    assert_eq!(positions.get(key(1, -60, 120)), c);
    assert_eq!(positions.get(key(1, -120, 60)), Position::new());
    positions.set(key(1, -60, 60), c);
    assert_eq!(positions.get(key(1, -60, 60)), c);
    assert_eq!(positions.get(key(2, -60, 60)), b);
    assert_eq!(positions.entries.len(), 3);
    let other_owner = PositionKey {
        owner: Address { high: 1, low: 1 },
        tick_lower: -60,
        tick_upper: 60,
    };
    assert_eq!(positions.get(other_owner), Position::new());
}
