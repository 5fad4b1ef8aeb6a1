use amms::amm::uniswap_v3::tick::{fee_growth_inside, Accumulators, Tick, Ticks};
use amms::amm::uniswap_v3::UniswapV3Pool;
use amms::errors::{AMMError, ArithmeticError, LogicError};
use amms::primitives::{Address, U256};

fn acc(fg0: u64, fg1: u64, spl: u64, tick_cumulative: i64, time: u32) -> Accumulators {
    Accumulators {
        fee_growth_global_0_x128: U256::from_u64(fg0),
        fee_growth_global_1_x128: U256::from_u64(fg1),
        seconds_per_liquidity_cumulative_x128: U256::from_u64(spl),
        tick_cumulative,
        time,
    }
}

fn tick_with_outside(fg0: u64, fg1: u64) -> Tick {
    let mut tick = Tick::new();
    tick.fee_growth_outside_0_x128 = U256::from_u64(fg0);
    tick.fee_growth_outside_1_x128 = U256::from_u64(fg1);
    tick
}

#[test]
fn a_fresh_tick_is_empty() {
    let tick = Tick::new();
    assert_eq!(tick.liquidity_gross, 0);
    assert_eq!(tick.liquidity_net, 0);
    assert!(!tick.initialized);
    assert_eq!(Ticks::new().get(5), tick);
}

#[test]
fn update_initializes_a_tick_at_or_below_the_current_tick() {
    let (tick, flipped) = Tick::new().update(-60, 0, 100, acc(7, 9, 11, -13, 15), false, 1000).unwrap();
    assert!(flipped);
    assert_eq!(
        tick,
        Tick {
            liquidity_gross: 100,
            liquidity_net: 100,
            fee_growth_outside_0_x128: U256::from_u64(7),
            fee_growth_outside_1_x128: U256::from_u64(9),
            tick_cumulative_outside: -13,
            seconds_per_liquidity_outside_x128: U256::from_u64(11),
            seconds_outside: 15,
            initialized: true,
        }
    );
    let (same, _) = Tick::new().update(0, 0, 1, acc(7, 9, 11, -13, 15), false, 1000).unwrap();
    assert_eq!(same.fee_growth_outside_0_x128, U256::from_u64(7));
}

#[test]
fn update_leaves_the_outside_values_of_a_tick_above_the_current_tick() {
    let (tick, flipped) = Tick::new().update(60, 0, 100, acc(7, 9, 11, -13, 15), true, 1000).unwrap();
    assert!(flipped);
    assert_eq!(
        tick,
        Tick { liquidity_gross: 100, liquidity_net: -100, initialized: true, ..Tick::new() }
    );
}

#[test]
fn update_nets_lower_and_upper_references() {
    let a = acc(1, 1, 1, 1, 1);
    let (tick, _) = Tick::new().update(0, 0, 100, a, false, 1000).unwrap();
    let (tick, flipped) = tick.update(0, 0, 30, a, true, 1000).unwrap();
    assert!(!flipped);
    assert_eq!(tick.liquidity_gross, 130);
    assert_eq!(tick.liquidity_net, 70);
    let (tick, flipped) = tick.update(0, 0, -30, a, true, 1000).unwrap();
    assert!(!flipped);
    assert_eq!((tick.liquidity_gross, tick.liquidity_net), (100, 100));
    let (tick, flipped) = tick.update(0, 0, -100, acc(5, 5, 5, 5, 5), false, 1000).unwrap();
    assert!(flipped);
    assert_eq!((tick.liquidity_gross, tick.liquidity_net), (0, 0));
    // the outside values are those of the first initialization
    assert_eq!(tick.fee_growth_outside_0_x128, U256::one());
    assert!(tick.initialized);
}

#[test]
fn update_reports_its_errors() {
    let a = acc(0, 0, 0, 0, 0);
    assert_eq!(
        Tick::new().update(0, 0, 1001, a, false, 1000),
        Err(AMMError::LogicError(LogicError::LiquidityOverMax))
    );
    assert_eq!(Tick::new().update(0, 0, 1000, a, false, 1000).map(|r| r.1), Ok(true));
    assert_eq!(
        Tick::new().update(0, 0, -1, a, false, 1000),
        Err(AMMError::LogicError(LogicError::LiquiditySub))
    );
    let full = Tick { liquidity_gross: u128::MAX, ..Tick::new() };
    assert_eq!(
        full.update(0, 0, 1, a, false, u128::MAX),
        Err(AMMError::LogicError(LogicError::LiquidityAdd))
    );
    let lopsided = Tick { liquidity_gross: 10, liquidity_net: i128::MIN, ..Tick::new() };
    assert_eq!(
        lopsided.update(0, 0, 1, a, true, 1000),
        Err(AMMError::ArithmeticError(ArithmeticError::Overflow))
    );
}

#[test]
fn cross_flips_the_outside_values() {
    let tick = Tick {
        liquidity_gross: 3,
        liquidity_net: -2,
        fee_growth_outside_0_x128: U256::from_u64(1),
        fee_growth_outside_1_x128: U256::from_u64(2),
        tick_cumulative_outside: 3,
        seconds_per_liquidity_outside_x128: U256::from_u64(4),
        seconds_outside: 5,
        initialized: true,
    };
    let crossed = tick.cross(acc(7, 9, 10, 7, 8));
    assert_eq!(
        crossed,
        Tick {
            liquidity_gross: 3,
            liquidity_net: -2,
            fee_growth_outside_0_x128: U256::from_u64(6),
            fee_growth_outside_1_x128: U256::from_u64(7),
            tick_cumulative_outside: 4,
            seconds_per_liquidity_outside_x128: U256::from_u64(6),
            seconds_outside: 3,
            initialized: true,
        }
    );
    assert_eq!(crossed.cross(acc(7, 9, 10, 7, 8)), tick);
}

#[test]
fn cross_wraps_each_value_at_its_width() {
    let tick = Tick {
        fee_growth_outside_0_x128: U256::from_u64(1),
        fee_growth_outside_1_x128: U256::from_u64(1),
        tick_cumulative_outside: (1 << 55) - 1,
        seconds_per_liquidity_outside_x128: U256::from_u64(1),
        seconds_outside: 1,
        ..Tick::new()
    };
    let crossed = tick.cross(acc(0, 0, 0, -(1 << 55), 0));
    assert_eq!(crossed.fee_growth_outside_0_x128, U256::max_value());
    assert_eq!(crossed.fee_growth_outside_1_x128, U256::max_value());
    assert_eq!(
        crossed.seconds_per_liquidity_outside_x128,
        U256::pow2(160).wrapping_sub(U256::one())
    );
    assert_eq!(crossed.tick_cumulative_outside, 1);
    assert_eq!(crossed.seconds_outside, u32::MAX);
}

#[test]
fn fee_growth_inside_splits_below_inside_above() {
    let lower = tick_with_outside(2, 3);
    let upper = tick_with_outside(4, 1);
    let g0 = U256::from_u64(15);
    let g1 = U256::from_u64(20);
    // inside the range: global - lower - upper
    assert_eq!(
        fee_growth_inside(lower, upper, -2, 2, 0, g0, g1),
        (U256::from_u64(9), U256::from_u64(16))
    );
    assert_eq!(
        fee_growth_inside(lower, upper, -2, 2, -2, g0, g1),
        (U256::from_u64(9), U256::from_u64(16))
    );
    // below the range: lower - upper
    assert_eq!(
        fee_growth_inside(lower, upper, -2, 2, -3, g0, g1),
        (U256::max_value().wrapping_sub(U256::one()), U256::from_u64(2))
    );
    // at or above the upper tick: upper - lower
    assert_eq!(
        fee_growth_inside(lower, upper, -2, 2, 2, g0, g1),
        (U256::from_u64(2), U256::max_value().wrapping_sub(U256::one()))
    );
    assert_eq!(
        fee_growth_inside(Tick::new(), Tick::new(), -2, 2, 0, g0, g1),
        (g0, g1)
    );
}

#[test]
fn the_pool_keeps_its_ticks() {
    let zero = Address::zero();
    let mut pool = UniswapV3Pool::new(zero, zero, 18, zero, 18, 3000, 0, U256::pow2(96), 0, 60);
    let flipped = pool.update_tick(
        -60, 0, 50, U256::from_u64(7), U256::from_u64(9), U256::from_u64(11), 13, 15, false, 1000,
    );
    assert_eq!(flipped, Ok(true));
    assert_eq!(pool.ticks.get(-60).fee_growth_outside_1_x128, U256::from_u64(9));
    assert_eq!(
        pool.update_tick(-60, 0, 951, U256::zero(), U256::zero(), U256::zero(), 0, 0, false, 1000),
        Err(AMMError::LogicError(LogicError::LiquidityOverMax))
    );
    assert_eq!(pool.ticks.get(-60).liquidity_gross, 50);
    assert_eq!(
        pool.get_fee_growth_inside(-60, 60, 0, U256::from_u64(10), U256::from_u64(10)),
        (U256::from_u64(3), U256::from_u64(1))
    );
    let net = pool.cross_tick(-60, U256::from_u64(10), U256::from_u64(10), U256::from_u64(12), 14, 16);
    assert_eq!(net, 50);
    let crossed = pool.ticks.get(-60);
    assert_eq!(crossed.fee_growth_outside_0_x128, U256::from_u64(3));
    assert_eq!(crossed.seconds_per_liquidity_outside_x128, U256::one());
    assert_eq!(crossed.tick_cumulative_outside, 1);
    assert_eq!(crossed.seconds_outside, 1);
    let mut ticks = Ticks::new();
    ticks.set(3, crossed);
    assert_eq!(ticks.get(3), crossed);
    ticks.remove(3);
    assert_eq!(ticks.get(3), Tick::new());
}

#[test]
fn crossing_twice_restores_a_record_within_its_widths() {
    let tick = Tick {
        liquidity_gross: 3,
        liquidity_net: -2,
        fee_growth_outside_0_x128: U256::max_value(),
        fee_growth_outside_1_x128: U256::from_u64(2),
        tick_cumulative_outside: -(1 << 55),
        seconds_per_liquidity_outside_x128: U256::pow2(160).wrapping_sub(U256::one()),
        seconds_outside: u32::MAX,
        initialized: true,
    };
    let at = acc(7, 9, 10, (1 << 55) - 1, 8);
    let once = tick.cross(at);
    assert_ne!(once, tick);
    assert_eq!(once.cross(at), tick);
    // beyond its width a value is not restored
    let wide = Tick { seconds_per_liquidity_outside_x128: U256::pow2(160), ..tick };
    assert_eq!(
        wide.cross(at).cross(at),
        Tick { seconds_per_liquidity_outside_x128: U256::zero(), ..tick }
    );
}
