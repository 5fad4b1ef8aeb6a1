use amms::amm::shallow_amm::shallow_v2::ShallowV2;
use amms::amm::shallow_amm::shallow_v3::ShallowV3;
use amms::amm::shallow_amm::ShallowAMM;
use amms::amm::uniswap_v2::UniswapV2Pool;
use amms::amm::uniswap_v3::events::InitializeEvent;
use amms::amm::uniswap_v3::UniswapV3Pool;
use amms::amm::AMM;
use amms::errors::{AMMError, ArithmeticError, SwapSimulationError};
use amms::primitives::{Address, U256};

fn dec(s: &str) -> U256 {
    let parsed = alloy::primitives::U256::from_str_radix(s, 10).unwrap();
    U256::from_limbs(parsed.into_limbs())
}

fn token(n: u128) -> Address {
    Address { high: 7, low: n }
}

fn v2(reserve_0: u128, reserve_1: u128, fee: u32) -> UniswapV2Pool {
    UniswapV2Pool {
        address: Address { high: 1, low: 1 },
        token_a: token(0xa),
        token_a_decimals: 18,
        token_b: token(0xb),
        token_b_decimals: 18,
        reserve_0,
        reserve_1,
        fee,
    }
}

fn v3() -> UniswapV3Pool {
    let mut pool = UniswapV3Pool::new(
        Address { high: 9, low: 9 },
        token(0xa),
        18,
        token(0xb),
        18,
        3000,
        0,
        U256::pow2(96),
        0,
        60,
    );
    pool.sync_from_initialize_log(&InitializeEvent { sqrt_price_x96: U256::pow2(96), tick: 0 }, 1000)
        .unwrap();
    pool.mint(token(1), -600, 600, 1_000_000_000_000_000_000, 1010).unwrap();
    pool.mint(token(2), -1200, -600, 500_000_000_000_000_000, 1010).unwrap();
    pool
}

#[test]
fn constant_product_quote() {
    let base = v2(1000, 1000, 300);
    let state = ShallowV2::new(&base);
    assert_eq!(state, ShallowV2 { reserve_0: 1000, reserve_1: 1000 });
    let (out, after) = state.simulate_swap(token(0xa), U256::from_u64(10), &base).unwrap();
    // 10 * 997 * 1000 / (1000 * 1000 + 10 * 997)
    assert_eq!(out, U256::from_u64(9));
    assert!(out.lt(U256::from_u64(10 * 1000 / 1010 + 1)));
    assert!(9 * 1010 < 10 * 1000);
    assert_eq!(after, ShallowV2 { reserve_0: 1010, reserve_1: 991 });
    assert!(after.reserve_0 * after.reserve_1 >= 1000 * 1000);
    // the other way round
    let (out, after) = state.simulate_swap(token(0xb), U256::from_u64(10), &base).unwrap();
    assert_eq!(out, U256::from_u64(9));
    assert_eq!(after, ShallowV2 { reserve_0: 991, reserve_1: 1010 });
    // the state is not changed, and quotes chain
    assert_eq!(state, ShallowV2 { reserve_0: 1000, reserve_1: 1000 });
    let (out, again) = after.simulate_swap(token(0xb), U256::from_u64(10), &base).unwrap();
    assert_eq!(out, U256::from_u64(9));
    assert_eq!(again, ShallowV2 { reserve_0: 982, reserve_1: 1020 });
}

#[test]
fn constant_product_formula() {
    let base = v2(0, 0, 300);
    assert_eq!(
        base.get_amount_out(U256::from_u64(1_000_000), U256::from_u64(5_000_000), U256::from_u64(7_000_000)),
        Ok(U256::from_u64(1_163_748))
    );
    assert_eq!(base.get_amount_out(U256::zero(), U256::one(), U256::one()), Ok(U256::zero()));
    assert_eq!(base.get_amount_out(U256::one(), U256::zero(), U256::one()), Ok(U256::zero()));
    assert_eq!(base.get_amount_out(U256::one(), U256::one(), U256::zero()), Ok(U256::zero()));
    let free = v2(0, 0, 0);
    assert_eq!(
        free.get_amount_out(U256::from_u64(10), U256::from_u64(1000), U256::from_u64(1000)),
        Ok(U256::from_u64(9))
    );
    assert_eq!(
        free.get_amount_out(U256::from_u64(1000), U256::from_u64(1000), U256::from_u64(1000)),
        Ok(U256::from_u64(500))
    );
    // large values do not wrap
    assert_eq!(
        base.get_amount_out(
            U256::from_u128(u128::MAX),
            U256::from_u128(u128::MAX),
            U256::from_u128(u128::MAX)
        ),
        Ok(dec("169885588292526613957428384381308416034"))
    );
    assert_eq!(
        base.get_amount_out(U256::max_value(), U256::one(), U256::one()),
        Err(SwapSimulationError::ReserveOverflow)
    );
    let broken = v2(0, 0, 100_010);
    assert_eq!(
        broken.get_amount_out(U256::one(), U256::one(), U256::one()),
        Err(SwapSimulationError::ReserveOverflow)
    );
}

#[test]
fn constant_product_quote_reports_overflow() {
    let base = v2(u128::MAX, 1000, 300);
    let state = ShallowV2::new(&base);
    assert_eq!(
        state.simulate_swap(token(0xa), U256::from_u64(1), &base),
        Err(SwapSimulationError::ReserveOverflow)
    );
    assert_eq!(
        state.simulate_swap(token(0xa), U256::pow2(128), &base),
        Err(SwapSimulationError::ReserveOverflow)
    );
    assert_eq!(
        state.simulate_swap(token(0xa), U256::zero(), &base),
        Ok((U256::zero(), state))
    );
}

#[test]
fn concentrated_liquidity_quote_matches_the_pool() {
    let base = v3();
    let state = ShallowV3::new(&base);
    assert_eq!(
        state,
        ShallowV3 { liquidity: 1_000_000_000_000_000_000, sqrt_price: U256::pow2(96), tick: 0 }
    );
    let (out, after) = state.simulate_swap(token(0xa), dec("10000000000000000"), &base).unwrap();
    assert_eq!(out, dec("9871580343970612"));
    assert_eq!(Ok(out), base.simulate_swap(token(0xa), dec("10000000000000000")));
    assert_eq!(
        after,
        ShallowV3 {
            liquidity: 1_000_000_000_000_000_000,
            sqrt_price: dec("78446055342499616417857907004"),
            tick: -199,
        }
    );
    // the quote continues from the state after the first one, across two ticks
    let (out, drained) = after.simulate_swap(token(0xa), dec("50000000000000000"), &base).unwrap();
    assert_eq!(out, dec("34021245748723940"));
    assert_eq!(drained, ShallowV3 { liquidity: 0, sqrt_price: dec("4295128740"), tick: -887272 });
    // neither the pool nor the first state has changed
    assert_eq!(base.slot0.tick, 0);
    assert_eq!(base.liquidity, 1_000_000_000_000_000_000);
    assert_eq!(base.fee_growth_global_0_x128, U256::zero());
    assert_eq!(state.tick, 0);
    let (up, _) = state.simulate_swap(token(0xb), dec("10000000000000000"), &base).unwrap();
    assert_eq!(up, dec("9871580343970612"));
}

#[test]
fn a_quote_of_nothing_is_nothing() {
    let base = v3();
    let state = ShallowV3::new(&base);
    assert_eq!(state.simulate_swap(token(0xa), U256::zero(), &base), Ok((U256::zero(), state)));
    assert_eq!(state.simulate_swap(token(0xa), U256::zero(), &base), Ok((U256::zero(), state)));
    assert_eq!(state.simulate_swap(token(0xb), U256::zero(), &base), Ok((U256::zero(), state)));
}

#[test]
fn a_quote_reports_liquidity_underflow() {
    let base = v3();
    let thin = ShallowV3 { liquidity: 500, sqrt_price: U256::pow2(96), tick: 0 };
    assert_eq!(
        thin.simulate_swap(token(0xb), dec("1000000000000000000"), &base),
        Err(SwapSimulationError::LiquidityUnderflow)
    );
    let mut broken = v3();
    broken.fee = 2_000_000;
    assert_eq!(
        ShallowV3::new(&broken).simulate_swap(token(0xa), U256::one(), &broken),
        Err(SwapSimulationError::Rejected(AMMError::ArithmeticError(ArithmeticError::SwapStepError)))
    );
}

#[test]
fn a_quote_state_goes_with_a_pool_of_its_kind() {
    let pool_v2 = AMM::UniswapV2Pool(v2(1000, 1000, 300));
    let pool_v3 = AMM::UniswapV3Pool(v3());
    let state_v2 = ShallowAMM::new(&pool_v2);
    let state_v3 = ShallowAMM::new(&pool_v3);
    assert!(matches!(state_v2, ShallowAMM::V2(ShallowV2 { reserve_0: 1000, reserve_1: 1000 })));
    assert!(matches!(state_v3, ShallowAMM::V3(ShallowV3 { tick: 0, .. })));
    match state_v2.simulate_swap(token(0xa), U256::from_u64(10), &pool_v2) {
        Ok((out, ShallowAMM::V2(after))) => {
            assert_eq!(out, U256::from_u64(9));
            assert_eq!(after, ShallowV2 { reserve_0: 1010, reserve_1: 991 });
        }
        _ => panic!("a quote of the first kind"),
    }
    match state_v3.simulate_swap(token(0xa), dec("10000000000000000"), &pool_v3) {
        Ok((out, ShallowAMM::V3(after))) => {
            assert_eq!(out, dec("9871580343970612"));
            assert_eq!(after.tick, -199);
        }
        _ => panic!("a quote of the second kind"),
    }
    assert!(matches!(
        state_v2.simulate_swap(token(0xa), U256::from_u64(10), &pool_v3),
        Err(SwapSimulationError::MixedTypes)
    ));
    assert!(matches!(
        state_v3.simulate_swap(token(0xa), U256::from_u64(10), &pool_v2),
        Err(SwapSimulationError::MixedTypes)
    ));
}

#[test]
fn a_constant_product_quote_of_nothing_is_nothing() {
    let base = v2(1000, 1000, 300);
    let state = ShallowV2::new(&base);
    assert_eq!(state.simulate_swap(token(0xa), U256::zero(), &base), Ok((U256::zero(), state)));
    assert_eq!(state.simulate_swap(token(0xb), U256::zero(), &base), Ok((U256::zero(), state)));
}

#[test]
fn a_constant_product_quote_keeps_the_product_of_the_reserves() {
    for fee in [0u32, 300, 1000, 100_000] {
        let base = v2(123_456_789, 987_654, fee);
        let mut state = ShallowV2::new(&base);
        for (side, amount) in [(0xa, 1u64), (0xb, 77), (0xa, 1_000_000), (0xb, 5_000_000_000)] {
            let (out, after) =
                state.simulate_swap(token(side), U256::from_u64(amount), &base).unwrap();
            assert!(after.reserve_0 * after.reserve_1 >= state.reserve_0 * state.reserve_1);
            let (reserve_in, reserve_out) = if side == 0xa {
                (state.reserve_0, state.reserve_1)
            } else {
                (state.reserve_1, state.reserve_0)
            };
            let received = out.to_u128().unwrap();
            assert!(received * (reserve_in + amount as u128) <= amount as u128 * reserve_out);
            state = after;
        }
    }
}
