use amms::amm::uniswap_v3::events::InitializeEvent;
use amms::amm::uniswap_v3::modify::{credit_burn, liquidity_delta};
use amms::amm::uniswap_v3::pool::max_liquidity_per_tick;
use amms::amm::uniswap_v3::position::{Position, PositionKey};
use amms::amm::uniswap_v3::swap_math::SwapStep;
use amms::amm::uniswap_v3::swap_step::settle_amounts;
use amms::amm::uniswap_v3::tick::Tick;
use amms::amm::uniswap_v3::tick_math::{max_sqrt_ratio, min_sqrt_ratio, sqrt_price_at_tick};
use amms::amm::uniswap_v3::{Info, ModifyPositionParams, OverflowError, ProtocolFees, UniswapV3Pool};
use amms::errors::{AMMError, ArithmeticError, LogicError, SwapSimulationError};
use amms::primitives::{Address, I256, U256};

fn dec(s: &str) -> U256 {
    let parsed = alloy::primitives::U256::from_str_radix(s, 10).unwrap();
    U256::from_limbs(parsed.into_limbs())
}

fn signed(s: &str) -> I256 {
    match s.strip_prefix('-') {
        Some(magnitude) => I256::from_raw(U256::zero().wrapping_sub(dec(magnitude))),
        None => I256::from_raw(dec(s)),
    }
}

fn token(n: u128) -> Address {
    Address { high: 7, low: n }
}

fn owner() -> Address {
    Address { high: 1, low: 1 }
}

fn other() -> Address {
    Address { high: 2, low: 2 }
}

fn low_limit() -> U256 {
    min_sqrt_ratio().wrapping_add(U256::one())
}

fn high_limit() -> U256 {
    max_sqrt_ratio().wrapping_sub(U256::one())
}

fn fresh_pool() -> UniswapV3Pool {
    let mut pool = UniswapV3Pool::new(
        Address { high: 9, low: 9 },
        token(0xa),
        18,
        token(0xb),
        6,
        3000,
        0,
        U256::pow2(96),
        0,
        60,
    );
    pool.sync_from_initialize_log(
        &InitializeEvent { sqrt_price_x96: U256::pow2(96), tick: 0 },
        1000,
    )
    .unwrap();
    pool
}

fn pool_with_two_positions() -> UniswapV3Pool {
    let mut pool = fresh_pool();
    pool.mint(owner(), -600, 600, 1_000_000_000_000_000_000, 1010).unwrap();
    pool.mint(other(), -1200, -600, 500_000_000_000_000_000, 1010).unwrap();
    pool
}

#[test]
fn a_new_pool_has_its_static_data_and_nothing_else() {
    let pool = UniswapV3Pool::new(
        Address { high: 9, low: 9 },
        token(0xa),
        18,
        token(0xb),
        6,
        500,
        77,
        U256::pow2(96),
        0,
        10,
    );
    assert_eq!(pool.address(), Address { high: 9, low: 9 });
    assert_eq!(pool.tokens(), vec![token(0xa), token(0xb)]);
    assert_eq!(pool.get_token_out(token(0xa)), token(0xb));
    assert_eq!(pool.get_token_out(token(0xb)), token(0xa));
    assert_eq!(pool.get_token_out(token(0xc)), token(0xa));
    assert_eq!(pool.fee(), 500);
    assert!(pool.data_is_populated());
    assert_eq!(pool.liquidity, 77);
    assert_eq!(pool.slot0.observation_cardinality, 0);
    assert!(!pool.slot0.unlocked);
    assert_eq!(pool.max_liquidity_per_tick, 1917569901783203986719870431555990);
    assert_eq!(pool.protocol_fees, ProtocolFees { token0: 0, token1: 0 });
    assert_eq!(pool.last_log, None);
    let unknown = UniswapV3Pool::new(
        Address::zero(), Address::zero(), 0, token(1), 0, 500, 0, U256::pow2(96), 0, 10,
    );
    assert!(!unknown.data_is_populated());
}

#[test]
fn max_liquidity_per_tick_by_spacing() {
    assert_eq!(max_liquidity_per_tick(10), 1917569901783203986719870431555990);
    assert_eq!(max_liquidity_per_tick(60), 11505743598341114571880798222544994);
    assert_eq!(max_liquidity_per_tick(200), 38350317471085141830651933667504588);
    assert_eq!(max_liquidity_per_tick(1), 191757530477355301479181766273477);
    assert_eq!(max_liquidity_per_tick(16383), u128::MAX / 109);
}

#[test]
fn plain_records() {
    let info = Info::new(5, -3, true);
    assert_eq!(info, Info { liquidity_gross: 5, liquidity_net: -3, initialized: true });
    assert_eq!(OverflowError.message(), "Overflow");
    let params = ModifyPositionParams { owner: owner(), tick_lower: -1, tick_upper: 1, liquidity_delta: 0 };
    assert_eq!(params.tick_upper, 1);
}

#[test]
fn compressed_ticks_and_grid_steps() {
    let mut pool = fresh_pool();
    assert_eq!(pool.calculate_compressed(-1), -1);
    assert_eq!(pool.calculate_compressed(119), 1);
    assert_eq!(pool.calculate_word_pos_bit_pos(-1), (-1, 255));
    pool.slot0.tick = -61;
    assert_eq!(pool.get_next_tick(0), -120);
    assert_eq!(pool.get_next_tick(1), -60);
    assert_eq!(pool.get_next_tick(-2), -240);
}

#[test]
fn check_ticks_names_what_is_wrong() {
    assert_eq!(UniswapV3Pool::check_ticks(-60, 60), Ok(()));
    assert_eq!(UniswapV3Pool::check_ticks(-887272, 887272), Ok(()));
    assert_eq!(
        UniswapV3Pool::check_ticks(60, 60),
        Err(AMMError::LogicError(LogicError::TickLowerNotBelowUpper))
    );
    assert_eq!(
        UniswapV3Pool::check_ticks(61, 60),
        Err(AMMError::LogicError(LogicError::TickLowerNotBelowUpper))
    );
    assert_eq!(
        UniswapV3Pool::check_ticks(-887273, 60),
        Err(AMMError::LogicError(LogicError::TickLowerTooLow))
    );
    assert_eq!(
        UniswapV3Pool::check_ticks(-60, 887273),
        Err(AMMError::LogicError(LogicError::TickUpperTooHigh))
    );
}

#[test]
fn mint_inside_the_range_takes_both_tokens() {
    let mut pool = fresh_pool();
    assert_eq!(
        pool.mint(owner(), -600, 600, 1_000_000_000_000_000_000, 1010),
        Ok((dec("29553010879137170"), dec("29553010879137170")))
    );
    assert_eq!(pool.liquidity, 1_000_000_000_000_000_000);
    let lower = pool.ticks.get(-600);
    assert_eq!(lower.liquidity_gross, 1_000_000_000_000_000_000);
    assert_eq!(lower.liquidity_net, 1_000_000_000_000_000_000);
    assert!(lower.initialized);
    let upper = pool.ticks.get(600);
    assert_eq!(upper.liquidity_net, -1_000_000_000_000_000_000);
    assert_eq!(pool.tick_bitmap.word(-1), U256::pow2(246));
    assert_eq!(pool.tick_bitmap.word(0), U256::pow2(10));
    let position = pool.positions.get(PositionKey { owner: owner(), tick_lower: -600, tick_upper: 600 });
    assert_eq!(position, Position { liquidity: 1_000_000_000_000_000_000, ..Position::new() });
    // one observation was written for the time of the mint
    assert_eq!(pool.observations.get(0).block_timestamp, 1010);
    assert_eq!(pool.observations.get(0).tick_cumulative, 1);
    assert_eq!(pool.slot0.observation_cardinality, 1);
}

#[test]
fn mint_outside_the_range_takes_one_token() {
    let mut pool = fresh_pool();
    assert_eq!(
        pool.mint(owner(), 60, 120, 1_000_000_000_000_000_000, 1010),
        Ok((dec("2986382804598882"), U256::zero()))
    );
    assert_eq!(
        pool.mint(owner(), -120, -60, 1_000_000_000_000_000_000, 1010),
        Ok((U256::zero(), dec("2986382804598882")))
    );
    assert_eq!(pool.liquidity, 0);
    assert_eq!(pool.observations.get(0).block_timestamp, 1000);
    // a tick at or below the current tick takes the accumulators as outside values
    assert_eq!(pool.ticks.get(-60).tick_cumulative_outside, 1);
    assert_eq!(
        pool.ticks.get(-60).seconds_per_liquidity_outside_x128,
        U256::from_u64(10).checked_mul(U256::pow2(128)).unwrap()
    );
    assert_eq!(pool.ticks.get(-60).seconds_outside, 0);
    assert_eq!(pool.ticks.get(60).tick_cumulative_outside, 0);
}

#[test]
fn mint_reports_its_errors_and_changes_nothing() {
    let mut pool = fresh_pool();
    assert_eq!(
        pool.mint(owner(), -600, 600, 0, 1010),
        Err(AMMError::LogicError(LogicError::MintAmountZero))
    );
    assert_eq!(
        pool.mint(owner(), 600, -600, 1, 1010),
        Err(AMMError::LogicError(LogicError::TickLowerNotBelowUpper))
    );
    assert_eq!(
        pool.mint(owner(), -600, 601, 1, 1010),
        Err(AMMError::TickSpacingError)
    );
    assert_eq!(
        pool.mint(owner(), -600, 600, pool.max_liquidity_per_tick + 1, 1010),
        Err(AMMError::LogicError(LogicError::LiquidityOverMax))
    );
    assert_eq!(
        pool.mint(owner(), -600, 600, u128::MAX, 1010),
        Err(AMMError::ArithmeticError(ArithmeticError::U128ConversionError))
    );
    assert_eq!(pool.liquidity, 0);
    assert_eq!(pool.ticks.get(-600), Tick::new());
    assert_eq!(pool.tick_bitmap.word(-1), U256::zero());
    assert_eq!(pool.positions.entries.len(), 0);
    assert_eq!(pool.observations.get(0).block_timestamp, 1000);
}

#[test]
fn mint_inside_the_range_needs_an_initialized_pool() {
    let zero = Address::zero();
    let mut pool = UniswapV3Pool::new(zero, token(1), 18, token(2), 18, 3000, 0, U256::pow2(96), 0, 60);
    assert_eq!(pool.mint(owner(), -600, 600, 1000, 1010), Err(AMMError::PoolDataError));
    assert_eq!(pool.mint(owner(), 600, 1200, 1000, 1010).map(|a| a.1), Ok(U256::zero()));
}

#[test]
fn swap_within_one_range() {
    let mut pool = pool_with_two_positions();
    assert_eq!(pool.liquidity, 1_000_000_000_000_000_000);
    let amounts = pool.swap(owner(), true, signed("10000000000000000"), low_limit(), 1020, None);
    assert_eq!(amounts, Ok((signed("10000000000000000"), signed("-9871580343970612"))));
    assert_eq!(pool.slot0.sqrt_price_x96, dec("78446055342499616417857907004"));
    assert_eq!(pool.slot0.tick, -199);
    assert_eq!(pool.liquidity, 1_000_000_000_000_000_000);
    assert_eq!(pool.fee_growth_global_0_x128, dec("10208471007628153903901238222953046"));
    assert_eq!(pool.fee_growth_global_1_x128, U256::zero());
    assert_eq!(pool.protocol_fees, ProtocolFees { token0: 0, token1: 0 });
    // the tick has changed: one observation for the swap's time, with the tick from before
    assert_eq!(pool.observations.get(0).block_timestamp, 1020);
    assert_eq!(pool.observations.get(0).tick_cumulative, 1);
}

#[test]
fn swap_across_ticks_down_to_the_end_of_the_range() {
    let mut pool = pool_with_two_positions();
    pool.swap(owner(), true, signed("10000000000000000"), low_limit(), 1020, None).unwrap();
    let amounts = pool.swap(owner(), true, signed("50000000000000000"), low_limit(), 1030, None);
    assert_eq!(amounts, Ok((signed("36282020877011913"), signed("-34021245748723940"))));
    assert_eq!(pool.slot0.sqrt_price_x96, dec("4295128740"));
    assert_eq!(pool.slot0.tick, -887272);
    assert_eq!(pool.liquidity, 0);
    assert_eq!(pool.fee_growth_global_0_x128, dec("63312344599188800810378327457613656"));
    let crossed = pool.ticks.get(-600);
    assert_eq!(crossed.liquidity_gross, 1_500_000_000_000_000_000);
    assert_eq!(crossed.liquidity_net, 500_000_000_000_000_000);
    assert_eq!(crossed.fee_growth_outside_0_x128, dec("31181389060295469131439053824855286"));
    assert_eq!(pool.ticks.get(-1200).liquidity_net, 500_000_000_000_000_000);

    let back = pool.swap(owner(), false, signed("-10000000000000000"), high_limit(), 1040, None);
    assert_eq!(back, Ok((signed("-10000000000000000"), signed("9066720238679686"))));
    assert_eq!(pool.slot0.sqrt_price_x96, dec("76046866476793464932108622124"));
    assert_eq!(pool.slot0.tick, -820);
    assert_eq!(pool.liquidity, 500_000_000_000_000_000);
    assert_eq!(pool.fee_growth_global_1_x128, dec("18511470138168039132853441680792076"));
}

#[test]
fn swap_of_an_exact_output() {
    let mut pool = fresh_pool();
    pool.mint(owner(), -600, 600, 1_000_000_000_000_000_000, 1010).unwrap();
    let amounts = pool.swap(owner(), false, signed("-1000000000000000"), high_limit(), 1020, None);
    assert_eq!(amounts, Ok((signed("-1000000000000000"), signed("1004013040121367"))));
    assert_eq!(pool.slot0.sqrt_price_x96, dec("79307469984248586179723674011"));
    assert_eq!(pool.slot0.tick, 20);
    assert_eq!(pool.fee_growth_global_1_x128, dec("1024943801136263662990517543963260"));
    assert_eq!(pool.fee_growth_global_0_x128, U256::zero());
}

#[test]
fn swap_stops_at_the_price_limit() {
    let mut pool = fresh_pool();
    pool.mint(owner(), -600, 600, 1_000_000_000_000_000_000, 1010).unwrap();
    let limit = sqrt_price_at_tick(-100);
    let amounts = pool.swap(owner(), true, signed("1000000000000000000"), limit, 1020, None);
    assert_eq!(amounts, Ok((signed("5027351678085461"), signed("-4987272070749096"))));
    assert_eq!(pool.slot0.sqrt_price_x96, limit);
    assert_eq!(pool.slot0.tick, -100);
}

#[test]
fn swap_gives_the_protocol_its_share() {
    let mut pool = fresh_pool();
    pool.slot0.fee_protocol = 4 + (5 << 4);
    pool.mint(owner(), -600, 600, 1_000_000_000_000_000_000, 1010).unwrap();
    let down = pool.swap(owner(), true, signed("10000000000000000"), low_limit(), 1020, None);
    assert_eq!(down, Ok((signed("10000000000000000"), signed("-9871580343970612"))));
    assert_eq!(pool.protocol_fees, ProtocolFees { token0: 7500000000000, token1: 0 });
    assert_eq!(pool.fee_growth_global_0_x128, dec("7656353255721115427925928667214784"));
    let up = pool.swap(owner(), false, signed("10000000000000000"), high_limit(), 1030, None);
    assert_eq!(up, Ok((signed("-10068409970553932"), signed("10000000000000000"))));
    assert_eq!(pool.protocol_fees, ProtocolFees { token0: 7500000000000, token1: 5999999999999 });
    assert_eq!(pool.fee_growth_global_1_x128, dec("8166776806103203687854832455289363"));
    assert_eq!(pool.slot0.sqrt_price_x96, dec("79235960122766831709236400642"));
    assert_eq!(pool.slot0.tick, 1);
}

#[test]
fn swap_reports_its_errors_and_changes_nothing() {
    let mut pool = pool_with_two_positions();
    assert_eq!(
        pool.swap(owner(), true, I256::zero(), low_limit(), 1020, None),
        Err(AMMError::LogicError(LogicError::AmountSpecifiedZero))
    );
    assert_eq!(
        pool.swap(owner(), true, signed("5"), min_sqrt_ratio(), 1020, None),
        Err(AMMError::LogicError(LogicError::SqrtPriceLimit))
    );
    assert_eq!(
        pool.swap(owner(), true, signed("5"), U256::pow2(96), 1020, None),
        Err(AMMError::LogicError(LogicError::SqrtPriceLimit))
    );
    assert_eq!(
        pool.swap(owner(), false, signed("5"), max_sqrt_ratio(), 1020, None),
        Err(AMMError::LogicError(LogicError::SqrtPriceLimit))
    );
    assert_eq!(
        pool.swap(owner(), false, signed("5"), low_limit(), 1020, None),
        Err(AMMError::LogicError(LogicError::SqrtPriceLimit))
    );
    // an exact-input swap cannot come with an input amount from a log
    assert_eq!(
        pool.swap(owner(), true, signed("5"), low_limit(), 1020, Some(signed("5"))),
        Err(AMMError::ReplayInconsistency)
    );
    pool.fee = 1_000_001;
    assert_eq!(
        pool.swap(owner(), true, signed("5"), low_limit(), 1020, None),
        Err(AMMError::ArithmeticError(ArithmeticError::SwapStepError))
    );
    pool.fee = 3000;
    let lowest = I256::from_raw(U256::pow2(255));
    assert_eq!(
        pool.swap(owner(), true, lowest, low_limit(), 1020, None),
        Err(AMMError::ArithmeticError(ArithmeticError::SwapStepError))
    );
    assert_eq!(pool.slot0.sqrt_price_x96, U256::pow2(96));
    assert_eq!(pool.slot0.tick, 0);
    assert_eq!(pool.liquidity, 1_000_000_000_000_000_000);
    assert_eq!(pool.fee_growth_global_0_x128, U256::zero());
    assert_eq!(pool.observations.get(0).block_timestamp, 1010);
}

#[test]
fn swap_fails_when_crossing_takes_more_liquidity_than_is_in_range() {
    let mut pool = fresh_pool();
    pool.mint(owner(), -600, 600, 1000, 1010).unwrap();
    pool.liquidity = 500;
    assert_eq!(
        pool.swap(owner(), false, signed("1000000000000000000"), high_limit(), 1020, None),
        Err(AMMError::LogicError(LogicError::LiquiditySub))
    );
    assert_eq!(pool.slot0.tick, 0);
    assert_eq!(pool.liquidity, 500);
}

#[test]
fn swap_that_moves_the_tick_needs_an_initialized_pool() {
    let zero = Address::zero();
    let mut pool = UniswapV3Pool::new(zero, token(1), 18, token(2), 18, 3000, 0, U256::pow2(96), 0, 60);
    assert_eq!(
        pool.swap(owner(), true, signed("5"), low_limit(), 1020, None),
        Err(AMMError::PoolDataError)
    );
    assert_eq!(pool.slot0.sqrt_price_x96, U256::pow2(96));
}

#[test]
fn swap_into_a_pool_without_liquidity_runs_to_the_limit() {
    let mut pool = fresh_pool();
    let amounts = pool.swap(owner(), true, signed("1000000000000000000"), low_limit(), 1020, None);
    assert_eq!(amounts, Ok((I256::zero(), I256::zero())));
    assert_eq!(pool.slot0.sqrt_price_x96, dec("4295128740"));
    assert_eq!(pool.slot0.tick, -887272);
    let mut pool = fresh_pool();
    let amounts = pool.swap(owner(), false, signed("1000000000000000000"), high_limit(), 1020, None);
    assert_eq!(amounts, Ok((I256::zero(), I256::zero())));
    assert_eq!(
        pool.slot0.sqrt_price_x96,
        dec("1461446703485210103287273052203988822378723970341")
    );
    assert_eq!(pool.slot0.tick, 887271);
}

#[test]
fn simulate_swap_quotes_without_changing_the_pool() {
    let pool = pool_with_two_positions();
    assert_eq!(
        pool.simulate_swap(token(0xa), dec("10000000000000000")),
        Ok(dec("9871580343970612"))
    );
    assert_eq!(
        pool.simulate_swap(token(0xa), dec("10000000000000000")),
        Ok(dec("9871580343970612"))
    );
    assert_eq!(
        pool.simulate_swap(token(0xb), dec("10000000000000000")),
        Ok(dec("9871580343970612"))
    );
    assert_eq!(pool.slot0.tick, 0);
    assert_eq!(pool.fee_growth_global_0_x128, U256::zero());
    assert_eq!(
        pool.simulate_swap(token(0xa), U256::zero()),
        Err(SwapSimulationError::Rejected(AMMError::LogicError(LogicError::AmountSpecifiedZero)))
    );
    // a pool without liquidity quotes zero
    assert_eq!(fresh_pool().simulate_swap(token(0xa), dec("1000000")), Ok(U256::zero()));
}

#[test]
fn simulate_swap_mut_swaps() {
    let mut pool = pool_with_two_positions();
    assert_eq!(
        pool.simulate_swap_mut(token(0xa), dec("10000000000000000")),
        Ok(dec("9871580343970612"))
    );
    assert_eq!(pool.slot0.tick, -199);
    assert_eq!(
        pool.simulate_swap_mut(token(0xa), U256::zero()),
        Err(SwapSimulationError::Rejected(AMMError::LogicError(LogicError::AmountSpecifiedZero)))
    );
    assert_eq!(pool.slot0.tick, -199);
}

#[test]
fn in_range_liquidity_follows_the_net_liquidity_of_crossed_ticks() {
    let mut pool = pool_with_two_positions();
    pool.mint(owner(), -120, 120, 300, 1010).unwrap();
    let before = pool.liquidity;
    assert_eq!(before, 1_000_000_000_000_000_300);
    let limit = sqrt_price_at_tick(-700);
    let plan = pool
        .plan_swap(true, signed("1000000000000000000"), limit, 1020, None)
        .unwrap();
    let crossed: Vec<i32> = plan.crossed.iter().map(|c| c.tick).collect();
    assert_eq!(crossed, vec![-120, -600]);
    let net: i128 = plan.crossed.iter().map(|c| -c.info.liquidity_net).sum();
    assert_eq!(net, -300 - 500_000_000_000_000_000);
    assert_eq!(plan.state.liquidity as i128, before as i128 + net);
    pool.swap(owner(), true, signed("1000000000000000000"), limit, 1020, None).unwrap();
    assert_eq!(pool.liquidity, 500_000_000_000_000_000);
    assert_eq!(pool.slot0.tick, -700);
}

#[test]
fn burn_frees_tokens_and_credits_the_position() {
    let mut pool = pool_with_two_positions();
    pool.swap(owner(), true, signed("10000000000000000"), low_limit(), 1020, None).unwrap();
    assert_eq!(
        pool.burn(owner(), -600, 600, 400_000_000_000_000_000, 1030),
        Ok((dec("15809204351654867"), dec("7872572214066622")))
    );
    assert_eq!(pool.liquidity, 600_000_000_000_000_000);
    let key = PositionKey { owner: owner(), tick_lower: -600, tick_upper: 600 };
    let position = pool.positions.get(key);
    assert_eq!(position.liquidity, 600_000_000_000_000_000);
    assert_eq!(position.tokens_owed0, 15839204351654866);
    assert_eq!(position.tokens_owed1, 7872572214066622);
    assert_eq!(position.fee_growth_inside_0_last_x128, dec("10208471007628153903901238222953046"));
    assert_eq!(pool.ticks.get(600).liquidity_gross, 600_000_000_000_000_000);
    assert_eq!(pool.ticks.get(-600).liquidity_gross, 1_100_000_000_000_000_000);

    assert_eq!(
        pool.collect(owner(), owner(), -600, 600, 15_000_000_000_000_000, u128::MAX),
        (15_000_000_000_000_000, 7872572214066622)
    );
    let position = pool.positions.get(key);
    assert_eq!((position.tokens_owed0, position.tokens_owed1), (839204351654866, 0));
    assert_eq!(pool.collect(other(), owner(), -600, 600, 1, 1), (0, 0));
}

#[test]
fn burning_everything_drops_the_ticks() {
    let mut pool = fresh_pool();
    pool.mint(owner(), -600, 600, 1000, 1010).unwrap();
    pool.mint(other(), -600, 1200, 500, 1010).unwrap();
    pool.burn(owner(), -600, 600, 1000, 1020).unwrap();
    assert_eq!(pool.ticks.get(600), Tick::new());
    assert_eq!(pool.tick_bitmap.word(0), U256::pow2(20));
    assert_eq!(pool.ticks.get(-600).liquidity_gross, 500);
    assert_eq!(pool.tick_bitmap.word(-1), U256::pow2(246));
    assert_eq!(pool.liquidity, 500);
    // a burn of nothing pokes the position
    assert_eq!(pool.burn(other(), -600, 1200, 0, 1020), Ok((U256::zero(), U256::zero())));
    assert_eq!(
        pool.burn(owner(), -600, 600, 0, 1020),
        Err(AMMError::LogicError(LogicError::NoPosition))
    );
    assert_eq!(
        pool.burn(other(), -600, 1200, 501, 1020),
        Err(AMMError::LogicError(LogicError::LiquiditySub))
    );
    assert_eq!(
        pool.burn(other(), -600, 1200, u128::MAX, 1020),
        Err(AMMError::ArithmeticError(ArithmeticError::U128ConversionError))
    );
    assert_eq!(pool.ticks.get(-600).liquidity_gross, 500);
}

#[test]
fn modify_position_returns_signed_amounts() {
    let mut pool = fresh_pool();
    let minted = pool.modify_position(
        ModifyPositionParams {
            owner: owner(),
            tick_lower: -600,
            tick_upper: 600,
            liquidity_delta: 1_000_000_000_000_000_000,
        },
        1010,
    );
    assert_eq!(minted, Ok((signed("29553010879137170"), signed("29553010879137170"))));
    let burnt = pool.modify_position(
        ModifyPositionParams {
            owner: owner(),
            tick_lower: -600,
            tick_upper: 600,
            liquidity_delta: -1_000_000_000_000_000_000,
        },
        1020,
    );
    assert_eq!(burnt, Ok((signed("-29553010879137169"), signed("-29553010879137169"))));
    assert_eq!(pool.liquidity, 0);
    assert_eq!(
        pool.update_position(owner(), -600, 600, 0, 0, 1030),
        Err(AMMError::LogicError(LogicError::NoPosition))
    );
    assert_eq!(pool.update_position(owner(), -600, 600, 7, 0, 1030), Ok(()));
    assert_eq!(pool.ticks.get(-600).liquidity_gross, 7);
    // update_position alone leaves the in-range liquidity as it is
    assert_eq!(pool.liquidity, 0);
}

#[test]
fn burn_credit_and_liquidity_delta() {
    assert_eq!(liquidity_delta(5, false), Ok(5));
    assert_eq!(liquidity_delta(5, true), Ok(-5));
    assert_eq!(liquidity_delta(i128::MAX as u128, true), Ok(-i128::MAX));
    assert_eq!(
        liquidity_delta(i128::MAX as u128 + 1, true),
        Err(AMMError::ArithmeticError(ArithmeticError::U128ConversionError))
    );
    let position = Position { tokens_owed0: u128::MAX - 1, ..Position::new() };
    assert_eq!(credit_burn(position, U256::zero(), U256::zero()), Ok(position));
    assert_eq!(
        credit_burn(position, U256::one(), U256::from_u64(4)).map(|p| (p.tokens_owed0, p.tokens_owed1)),
        Ok((u128::MAX, 4))
    );
    assert_eq!(
        credit_burn(position, U256::from_u64(2), U256::zero()),
        Err(AMMError::ArithmeticError(ArithmeticError::Overflow))
    );
    assert_eq!(
        credit_burn(position, U256::pow2(128), U256::zero()),
        Err(AMMError::ArithmeticError(ArithmeticError::U128ConversionError))
    );
}

#[test]
fn flash_books_the_fees() {
    let mut pool = fresh_pool();
    assert_eq!(
        pool.flash(owner(), U256::zero(), U256::zero(), U256::from_u64(1000), U256::from_u64(3000)),
        Err(AMMError::LogicError(LogicError::NoLiquidity))
    );
    pool.mint(owner(), -600, 600, 1_000_000_000_000_000_000, 1010).unwrap();
    pool.slot0.fee_protocol = 4 + (5 << 4);
    assert_eq!(
        pool.flash(owner(), U256::zero(), U256::zero(), U256::from_u64(1000), U256::from_u64(3000)),
        Ok(())
    );
    assert_eq!(pool.protocol_fees, ProtocolFees { token0: 250, token1: 600 });
    assert_eq!(pool.fee_growth_global_0_x128, dec("255211775190703847597530"));
    assert_eq!(pool.fee_growth_global_1_x128, dec("816677680610252312312099"));
    pool.slot0.fee_protocol = 0;
    assert_eq!(
        pool.flash(owner(), U256::zero(), U256::zero(), U256::from_u64(1000), U256::zero()),
        Ok(())
    );
    assert_eq!(pool.protocol_fees, ProtocolFees { token0: 250, token1: 600 });
    assert_eq!(
        pool.fee_growth_global_0_x128,
        dec("255211775190703847597530").wrapping_add(dec("340282366920938463463374"))
    );
    pool.protocol_fees.token0 = u128::MAX;
    pool.slot0.fee_protocol = 4;
    assert_eq!(
        pool.flash(owner(), U256::zero(), U256::zero(), U256::from_u64(1000), U256::zero()),
        Err(AMMError::ArithmeticError(ArithmeticError::Overflow))
    );
    assert_eq!(pool.protocol_fees.token0, u128::MAX);
}

fn is_marked(pool: &UniswapV3Pool, tick: i32) -> bool {
    let spacing = pool.tick_spacing;
    if tick % spacing != 0 {
        return false;
    }
    let (word, bit) = amms::amm::uniswap_v3::tick_bitmap::position(tick / spacing);
    !pool.tick_bitmap.word(word).shr(bit as u32).low_bits(1).is_zero()
}

fn bitmap_matches_ticks(pool: &UniswapV3Pool) -> bool {
    (-2400..=2400).all(|tick| (pool.ticks.get(tick).liquidity_gross > 0) == is_marked(pool, tick))
}

#[test]
fn the_bitmap_marks_the_ticks_that_hold_liquidity() {
    let mut pool = fresh_pool();
    assert!(bitmap_matches_ticks(&pool));
    pool.mint(owner(), -600, 600, 1_000_000_000_000_000_000, 1010).unwrap();
    assert!(is_marked(&pool, -600) && is_marked(&pool, 600) && !is_marked(&pool, 0));
    assert!(bitmap_matches_ticks(&pool));
    pool.mint(other(), -1200, -600, 500_000_000_000_000_000, 1010).unwrap();
    assert!(is_marked(&pool, -1200));
    assert!(bitmap_matches_ticks(&pool));
    // a swap crosses ticks and leaves their liquidity and their marks
    pool.swap(owner(), true, signed("1000000000000000000"), sqrt_price_at_tick(-700), 1020, None)
        .unwrap();
    assert_eq!(pool.ticks.get(-600).liquidity_gross, 1_500_000_000_000_000_000);
    assert!(bitmap_matches_ticks(&pool));
    pool.burn(owner(), -600, 600, 1_000_000_000_000_000_000, 1030).unwrap();
    assert!(is_marked(&pool, -600) && !is_marked(&pool, 600));
    assert!(bitmap_matches_ticks(&pool));
    pool.burn(other(), -1200, -600, 500_000_000_000_000_000, 1030).unwrap();
    assert!(!is_marked(&pool, -600) && !is_marked(&pool, -1200));
    assert!(bitmap_matches_ticks(&pool));
    let limit = max_liquidity_per_tick(60);
    assert!((-2400..=2400).all(|tick| pool.ticks.get(tick).liquidity_gross <= limit));
}

#[test]
fn swap_amounts_follow_the_direction() {
    // token 0 in, token 1 out
    let mut pool = pool_with_two_positions();
    let (amount_0, amount_1) =
        pool.swap(owner(), true, signed("10000000000000000"), low_limit(), 1020, None).unwrap();
    assert!(amount_0.is_positive() && amount_1.is_negative());
    // token 1 in, token 0 out
    let mut pool = pool_with_two_positions();
    let (amount_0, amount_1) =
        pool.swap(owner(), false, signed("10000000000000000"), high_limit(), 1020, None).unwrap();
    assert!(amount_0.is_negative() && amount_1.is_positive());
    assert_eq!(amount_1, signed("10000000000000000"));
    // an exact output: what goes out is negative, what comes in positive
    let mut pool = pool_with_two_positions();
    let (amount_0, amount_1) =
        pool.swap(owner(), true, signed("-1000000000000000"), low_limit(), 1020, None).unwrap();
    assert!(amount_0.is_positive());
    assert_eq!(amount_1, signed("-1000000000000000"));
    // a swap of nothing is refused, again and again, and the pool stays as it is
    let before = (
        pool.slot0,
        pool.liquidity,
        pool.fee_growth_global_0_x128,
        pool.observations.get(0),
    );
    for _ in 0..3 {
        assert_eq!(
            pool.swap(owner(), true, I256::zero(), low_limit(), 1020, None),
            Err(AMMError::LogicError(LogicError::AmountSpecifiedZero))
        );
    }
    let after = (
        pool.slot0,
        pool.liquidity,
        pool.fee_growth_global_0_x128,
        pool.observations.get(0),
    );
    assert_eq!(after, before);
}

#[test]
fn swap_on_a_new_pool_at_time_zero_runs_to_the_limit() {
    let zero = Address::zero();
    let mut pool = UniswapV3Pool::new(zero, zero, 0, zero, 0, 3000, 0, U256::pow2(96), 0, 60);
    assert_eq!(pool.slot0.observation_cardinality, 0);
    assert!(pool.can_record(0));
    assert!(!pool.can_record(1));
    let quote = pool.simulate_swap(zero, U256::one());
    assert_eq!(quote, Ok(U256::zero()));
    let amounts = pool.swap(zero, true, I256::from_i128(1), low_limit(), 0, None);
    assert_eq!(amounts, Ok((I256::zero(), I256::zero())));
    assert_eq!(pool.slot0.sqrt_price_x96, dec("4295128740"));
    assert_eq!(pool.slot0.tick, -887272);
    assert_eq!(pool.liquidity, 0);
    // nothing was recorded
    assert_eq!(pool.slot0.observation_index, 0);
    assert_eq!(pool.slot0.observation_cardinality, 0);
    assert_eq!(pool.observations.get(0).initialized, false);
    // the committing quote agrees with the plain one
    let mut pool = UniswapV3Pool::new(zero, zero, 0, zero, 0, 3000, 0, U256::pow2(96), 0, 60);
    assert_eq!(pool.simulate_swap_mut(zero, U256::one()), quote);
    assert_eq!(pool.slot0.tick, -887272);
    // and the way up
    let mut pool = UniswapV3Pool::new(zero, token(1), 0, zero, 0, 3000, 0, U256::pow2(96), 0, 60);
    let amounts = pool.swap(zero, false, I256::from_i128(1), high_limit(), 0, None);
    assert_eq!(amounts, Ok((I256::zero(), I256::zero())));
    assert_eq!(pool.slot0.sqrt_price_x96, high_limit());
    assert_eq!(pool.slot0.tick, 887271);
}

#[test]
fn mint_inside_the_range_on_a_new_pool_at_time_zero() {
    let zero = Address::zero();
    let mut pool = UniswapV3Pool::new(zero, token(1), 18, token(2), 18, 3000, 0, U256::pow2(96), 0, 60);
    assert_eq!(pool.mint(owner(), -600, 600, 1000, 7), Err(AMMError::PoolDataError));
    assert_eq!(pool.liquidity, 0);
    let amounts = pool.mint(owner(), -600, 600, 1_000_000_000_000_000_000, 0);
    assert_eq!(amounts, Ok((dec("29553010879137170"), dec("29553010879137170"))));
    assert_eq!(pool.liquidity, 1_000_000_000_000_000_000);
    assert_eq!(pool.slot0.observation_cardinality, 0);
}

#[test]
fn a_step_cannot_take_more_than_remains() {
    let step = |amount_in: u64, amount_out: u64, fee_amount: u64| SwapStep {
        sqrt_price_next_x96: U256::pow2(96),
        amount_in: U256::from_u64(amount_in),
        amount_out: U256::from_u64(amount_out),
        fee_amount: U256::from_u64(fee_amount),
    };
    // exact input: input and fee come out of what remains
    assert_eq!(
        settle_amounts(signed("100"), signed("-5"), true, step(90, 80, 10)),
        Ok((signed("0"), signed("-85")))
    );
    assert_eq!(
        settle_amounts(signed("100"), signed("-5"), true, step(90, 80, 11)),
        Err(AMMError::ArithmeticError(ArithmeticError::SwapStepError))
    );
    // exact output: the output comes out of what remains to be given
    assert_eq!(
        settle_amounts(signed("-100"), signed("5"), false, step(90, 100, 10)),
        Ok((signed("0"), signed("105")))
    );
    assert_eq!(
        settle_amounts(signed("-100"), signed("5"), false, step(90, 101, 10)),
        Err(AMMError::ArithmeticError(ArithmeticError::SwapStepError))
    );
}

#[test]
fn a_clone_of_a_pool_goes_its_own_way() {
    let pool = pool_with_two_positions();
    let mut copy = pool.clone();
    copy.swap(owner(), true, signed("10000000000000000"), low_limit(), 1020, None).unwrap();
    assert_eq!(copy.slot0.tick, -199);
    assert_eq!(pool.slot0.tick, 0);
    assert_eq!(pool.ticks.get(-600), copy.ticks.get(-600));
    assert!(format!("{:?}", pool).contains("UniswapV3Pool"));
}

#[test]
fn exact_swaps_stay_within_the_amount_specified() {
    let mut pool = pool_with_two_positions();
    let (amount_0, amount_1) =
        pool.swap(owner(), true, signed("10000000000000000"), low_limit(), 1020, None).unwrap();
    assert_eq!(amount_0, signed("10000000000000000"));
    assert!(amount_1.is_negative());
    // the price limit ends the swap before the input is used up
    let mut pool = pool_with_two_positions();
    let (amount_0, _) = pool
        .swap(owner(), true, signed("10000000000000000000"), sqrt_price_at_tick(-10), 1020, None)
        .unwrap();
    assert!(amount_0.is_positive() && amount_0.lt(signed("10000000000000000000")));
    // an exact output gives no more than asked for
    let mut pool = pool_with_two_positions();
    let (_, amount_1) = pool
        .swap(owner(), true, signed("-10000000000000000000"), sqrt_price_at_tick(-10), 1020, None)
        .unwrap();
    assert!(amount_1.is_negative() && signed("-10000000000000000000").lt(amount_1));
}
