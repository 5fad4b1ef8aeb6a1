use amms::amm::uniswap_v3::events::InitializeEvent;
use amms::amm::uniswap_v3::liquidity_amounts::{
    get_amount_0_delta, get_amount_0_delta_inverted, get_amount_1_delta,
    get_amount_1_delta_inverted,
};
use amms::amm::uniswap_v3::liquidity_math::{add_delta, magnitude};
use amms::amm::uniswap_v3::swap_math::compute_swap_step;
use amms::amm::uniswap_v3::tick_math::sqrt_price_at_tick;
use amms::amm::uniswap_v3::util::{require, to_i128, to_i256, to_u128};
use amms::amm::uniswap_v3::{OverflowError, UniswapV3Pool};
use amms::errors::{AMMError, ArithmeticError, LogicError};
use amms::primitives::{Address, I256, U256};

fn dec(s: &str) -> U256 {
    let parsed = alloy::primitives::U256::from_str_radix(s, 10).unwrap();
    U256::from_limbs(parsed.into_limbs())
}

fn signed(s: &str) -> I256 {
    match s.strip_prefix('-') {
        Some(magnitude) => I256::from_raw(U256::zero().wrapping_sub(dec(magnitude))),
        None => I256::from_raw(dec(s)),
    }
}

fn q96() -> U256 {
    U256::pow2(96)
}

#[test]
fn add_delta_adds_and_subtracts() {
    assert_eq!(add_delta(1, 0), Ok(1));
    assert_eq!(add_delta(1, -1), Ok(0));
    assert_eq!(add_delta(1, 1), Ok(2));
    assert_eq!(add_delta(u128::MAX, i128::MIN), Ok(u128::MAX - (1u128 << 127)));
    assert_eq!(magnitude(i128::MIN), 1u128 << 127);
    assert_eq!(magnitude(-3), 3);
    assert_eq!(magnitude(3), 3);
}

#[test]
fn add_delta_reports_overflow_and_underflow() {
    assert_eq!(
        add_delta(340282366920938463463374607431768211441, 15),
        Err(AMMError::LogicError(LogicError::LiquidityAdd))
    );
    assert_eq!(add_delta(340282366920938463463374607431768211441, 14), Ok(u128::MAX));
    assert_eq!(add_delta(0, -1), Err(AMMError::LogicError(LogicError::LiquiditySub)));
    assert_eq!(add_delta(3, -4), Err(AMMError::LogicError(LogicError::LiquiditySub)));
}

#[test]
fn require_and_conversions() {
    assert_eq!(require(true, LogicError::NoLiquidity), Ok(()));
    assert_eq!(
        require(false, LogicError::NoLiquidity),
        Err(AMMError::LogicError(LogicError::NoLiquidity))
    );
    assert_eq!(to_u128(U256::from_limbs([1, 2, 3, 4])), 1 + (2u128 << 64));
    assert_eq!(to_i128(I256::from_i128(i128::MIN)), Ok(i128::MIN));
    assert_eq!(to_i128(I256::from_i128(i128::MAX)), Ok(i128::MAX));
    assert_eq!(to_i128(I256::from_i128(-1)), Ok(-1));
    assert_eq!(
        to_i128(I256::from_i128(i128::MAX).checked_add(I256::from_i128(1)).unwrap()),
        Err(AMMError::ArithmeticError(ArithmeticError::U128ConversionError))
    );
    assert_eq!(
        to_i128(I256::from_i128(i128::MIN).checked_sub(I256::from_i128(1)).unwrap()),
        Err(AMMError::ArithmeticError(ArithmeticError::U128ConversionError))
    );
    assert_eq!(to_i256(u128::MAX).map(|v| v.into_raw()), Ok(U256::from_u128(u128::MAX)));
    assert_eq!(to_i256(0), Ok(I256::zero()));
}

#[test]
fn every_reason_has_its_label() {
    assert_eq!(LogicError::AmountSpecifiedZero.label(), "AS");
    assert_eq!(LogicError::SqrtPriceLimit.label(), "SPL");
    assert_eq!(LogicError::TickLowerNotBelowUpper.label(), "TLU");
    assert_eq!(LogicError::TickLowerTooLow.label(), "TLM");
    assert_eq!(LogicError::TickUpperTooHigh.label(), "TUM");
    assert_eq!(LogicError::LiquidityOverMax.label(), "LO");
    assert_eq!(LogicError::LiquiditySub.label(), "LS");
    assert_eq!(LogicError::LiquidityAdd.label(), "LA");
    assert_eq!(LogicError::NoPosition.label(), "NP");
    assert_eq!(LogicError::NoLiquidity.label(), "L");
    assert_eq!(LogicError::ObservationTooOld.label(), "OLD");
    assert_eq!(LogicError::MintAmountZero.label(), "mint: amount must be larger than zero");
}

#[test]
fn amounts_of_a_liquidity_change() {
    let low = sqrt_price_at_tick(-600);
    let high = sqrt_price_at_tick(600);
    let l: i128 = 1_000_000_000_000_000_000;
    assert_eq!(get_amount_0_delta(low, high, l), Ok(signed("60005999255049927")));
    assert_eq!(get_amount_0_delta(high, low, l), Ok(signed("60005999255049927")));
    assert_eq!(get_amount_0_delta(low, high, -l), Ok(signed("-60005999255049926")));
    assert_eq!(get_amount_1_delta(low, high, l), Ok(signed("60005999255049927")));
    assert_eq!(get_amount_1_delta(high, low, -l), Ok(signed("-60005999255049926")));
    assert_eq!(get_amount_0_delta(q96(), high, l), Ok(signed("29553010879137170")));
    assert_eq!(get_amount_1_delta(low, q96(), l), Ok(signed("29553010879137170")));
    assert_eq!(get_amount_0_delta(low, high, 0), Ok(I256::zero()));
    assert_eq!(get_amount_1_delta(low, low, l), Ok(I256::zero()));
    assert_eq!(get_amount_0_delta(low, low, l), Ok(I256::zero()));
}

#[test]
fn amounts_of_a_liquidity_change_report_their_errors() {
    assert_eq!(
        get_amount_0_delta(U256::zero(), q96(), 1),
        Err(AMMError::ArithmeticError(ArithmeticError::MulDivError))
    );
    assert_eq!(
        get_amount_0_delta(U256::zero(), U256::zero(), 1),
        Err(AMMError::ArithmeticError(ArithmeticError::MulDivError))
    );
    // 2^127 * (2^256 - 1) / 2^96 does not fit 256 bits
    assert_eq!(
        get_amount_1_delta(U256::zero(), U256::max_value(), i128::MIN),
        Err(AMMError::ArithmeticError(ArithmeticError::MulDivError))
    );
    // 2^95 * (2^256 - 1) / 2^96 fits 256 bits but not the signed range
    assert_eq!(
        get_amount_1_delta(U256::zero(), U256::max_value(), 1i128 << 95),
        Err(AMMError::ArithmeticError(ArithmeticError::I256ConversionError))
    );
    assert_eq!(
        get_amount_1_delta(U256::zero(), U256::max_value(), 1i128 << 94).map(|a| a.into_raw()),
        Ok(U256::pow2(254))
    );
}

#[test]
fn liquidity_that_amounts_pay_for() {
    let low = sqrt_price_at_tick(-600);
    let high = sqrt_price_at_tick(600);
    assert_eq!(
        get_amount_0_delta_inverted(q96(), high, dec("29553010879137170")),
        Ok(1000000000000000010)
    );
    assert_eq!(
        get_amount_1_delta_inverted(low, q96(), dec("29553010879137170")),
        Ok(1000000000000000010)
    );
    assert_eq!(get_amount_0_delta_inverted(high, high, U256::one()), Ok(u128::MAX));
    assert_eq!(get_amount_1_delta_inverted(low, low, U256::zero()), Ok(u128::MAX));
    assert_eq!(get_amount_0_delta_inverted(low, high, U256::zero()), Ok(0));
    assert_eq!(get_amount_0_delta_inverted(low, high, U256::max_value()), Err(OverflowError));
    assert_eq!(get_amount_1_delta_inverted(low, high, U256::max_value()), Err(OverflowError));
    assert_eq!(get_amount_0_delta_inverted(low, U256::pow2(160), U256::one()), Err(OverflowError));
    assert_eq!(
        get_amount_1_delta_inverted(U256::zero(), U256::pow2(96), U256::from_u128(u128::MAX)),
        Ok(u128::MAX)
    );
    assert_eq!(
        get_amount_1_delta_inverted(U256::zero(), U256::pow2(96), U256::pow2(128)),
        Err(OverflowError)
    );
}

#[test]
fn mint_helper_picks_the_tokens_by_the_price() {
    let zero = Address::zero();
    let mut pool = UniswapV3Pool::new(zero, zero, 18, zero, 18, 3000, 0, U256::pow2(96), 0, 60);
    pool.sync_from_initialize_log(&InitializeEvent { sqrt_price_x96: U256::pow2(96), tick: 0 }, 1)
        .unwrap();
    let amount = dec("29553010879137170");
    assert_eq!(pool.mint_helper(amount, amount, -600, 600), Ok(1000000000000000010));
    assert_eq!(pool.mint_helper(amount, U256::from_u64(1000), -600, 600), Ok(33837));
    assert_eq!(pool.mint_helper(U256::from_u64(1000), amount, -600, 600), Ok(33837));
    let small = dec("1000000000000000");
    assert_eq!(pool.mint_helper(small, U256::zero(), 60, 120), Ok(334853254063762191));
    assert_eq!(pool.mint_helper(U256::zero(), small, -120, -60), Ok(334853254063762191));
    assert_eq!(pool.mint_helper(U256::zero(), small, 60, 120), Ok(0));
    assert_eq!(pool.mint_helper(U256::max_value(), small, 60, 120), Err(OverflowError));
    assert_eq!(pool.mint_helper(small, small, 60, 60), Ok(u128::MAX));
}

#[test]
fn one_swap_step() {
    let step = compute_swap_step(
        q96(),
        sqrt_price_at_tick(-600),
        1_000_000_000_000_000_000,
        signed("1000000000000000"),
        3000,
    )
    .unwrap();
    assert_eq!(step.sqrt_price_next_x96, dec("79149250711305166342700278159"));
    assert_eq!(step.amount_in, dec("997000000000000"));
    assert_eq!(step.amount_out, dec("996006981039903"));
    assert_eq!(step.fee_amount, dec("3000000000000"));
    // a step that reaches its target takes its fee on top of the input
    let full = compute_swap_step(
        q96(),
        dec("79623317895830914510639640423"),
        2_000_000_000_000_000_000,
        signed("1000000000000000000"),
        600,
    )
    .unwrap();
    assert_eq!(full.sqrt_price_next_x96, dec("79623317895830914510639640423"));
    assert_eq!(full.amount_in, dec("9975124224178055"));
    assert_eq!(full.fee_amount, dec("5988667735148"));
    assert_eq!(full.amount_out, dec("9925619580021728"));
}

#[test]
fn a_swap_step_reports_its_errors() {
    let failed = Err(AMMError::ArithmeticError(ArithmeticError::SwapStepError));
    assert_eq!(compute_swap_step(q96(), q96(), 1, signed("1"), 1_000_001), failed);
    assert_eq!(
        compute_swap_step(q96(), q96(), 1, I256::from_raw(U256::pow2(255)), 3000),
        failed
    );
    // a price of zero
    assert_eq!(compute_swap_step(U256::zero(), q96(), 1, signed("1"), 3000), failed);
    // a fee of all of the input leaves nothing to divide by
    assert_eq!(compute_swap_step(q96(), q96(), 1_000_000, signed("1000000000"), 1_000_000), failed);
    assert_eq!(
        compute_swap_step(q96(), sqrt_price_at_tick(-1), 1_000_000, signed("1000000000"), 1_000_000)
            .map(|step| step.fee_amount),
        Ok(dec("1000000000"))
    );
}
