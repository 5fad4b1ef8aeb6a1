use amms::errors::ArithmeticError;
use amms::primitives::full_math::{mul_div, mul_div_rounding_up};
use amms::primitives::wrapping::{
    wrap_to_i56, wrapping_add_i56, wrapping_add_u160, wrapping_sub_i56, wrapping_sub_u160,
    wrapping_sub_u32,
};
use amms::primitives::{Address, I256, U256};

fn dec(s: &str) -> U256 {
    let parsed = alloy::primitives::U256::from_str_radix(s, 10).unwrap();
    U256::from_limbs(parsed.into_limbs())
}

fn q128() -> U256 {
    U256::pow2(128)
}

#[test]
fn u256_limbs_round_trip() {
    let x = U256::from_limbs([1, 2, 3, 4]);
    assert_eq!(x.into_limbs(), [1, 2, 3, 4]);
    assert_eq!(x.low_u128(), 1 + (2u128 << 64));
    assert_eq!(x.high_u128(), 3 + (4u128 << 64));
    assert_eq!(U256::from_halves(3 + (4u128 << 64), 1 + (2u128 << 64)), x);
}

#[test]
fn u256_conversions() {
    assert_eq!(U256::from_u128(u128::MAX).to_u128(), Some(u128::MAX));
    assert_eq!(U256::pow2(128).to_u128(), None);
    assert_eq!(U256::from_u64(7), U256::from_limbs([7, 0, 0, 0]));
    assert!(U256::zero().is_zero());
    assert!(!U256::one().is_zero());
    assert_eq!(U256::max_value(), U256::from_limbs([u64::MAX; 4]));
}

#[test]
fn u256_addition_wraps_at_256_bits() {
    let max = U256::max_value();
    assert_eq!(max.wrapping_add(U256::one()), U256::zero());
    assert_eq!(max.overflowing_add(U256::from_u64(2)), (U256::one(), true));
    assert_eq!(max.checked_add(U256::one()), None);
    assert_eq!(
        U256::from_u128(u128::MAX).checked_add(U256::one()),
        Some(U256::pow2(128))
    );
    assert_eq!(
        U256::from_limbs([u64::MAX, u64::MAX, u64::MAX, 0]).wrapping_add(U256::one()),
        U256::from_limbs([0, 0, 0, 1])
    );
}

#[test]
fn u256_subtraction_wraps_at_256_bits() {
    assert_eq!(U256::zero().wrapping_sub(U256::one()), U256::max_value());
    assert_eq!(U256::zero().overflowing_sub(U256::one()), (U256::max_value(), true));
    assert_eq!(U256::zero().checked_sub(U256::one()), None);
    assert_eq!(
        U256::pow2(192).checked_sub(U256::one()),
        Some(U256::from_limbs([u64::MAX, u64::MAX, u64::MAX, 0]))
    );
}

#[test]
fn u256_ordering() {
    let small = U256::from_limbs([u64::MAX, u64::MAX, 0, 0]);
    let big = U256::from_limbs([0, 0, 1, 0]);
    assert!(small.lt(big));
    assert!(small.le(big));
    assert!(big.gt(small));
    assert!(big.ge(small));
    assert!(big.ge(big));
    assert!(!big.lt(big));
    assert!(big.equals(big));
    assert!(!big.equals(small));
}

#[test]
fn u256_powers_and_shifts() {
    assert_eq!(U256::pow2(0), U256::one());
    assert_eq!(U256::pow2(63), U256::from_limbs([1 << 63, 0, 0, 0]));
    assert_eq!(U256::pow2(64), U256::from_limbs([0, 1, 0, 0]));
    assert_eq!(U256::pow2(255), U256::from_limbs([0, 0, 0, 1 << 63]));
    let x = dec("123456789012345678901234567890123456789012345678901234567890");
    assert_eq!(x.shr(0), x);
    assert_eq!(x.shr(96), dec("1558243749375335620173130867767"));
    assert_eq!(x.shr(300), U256::zero());
    assert_eq!(x.low_bits(0), U256::zero());
    assert_eq!(x.low_bits(64), U256::from_u64(x.into_limbs()[0]));
    assert_eq!(U256::from_u64(0b1011_0110).low_bits(5), U256::from_u64(0b1_0110));
    assert_eq!(x.low_bits(256), x);
    assert_eq!(U256::from_u64(3).checked_shl(2), Some(U256::from_u64(12)));
    assert_eq!(U256::from_u64(3).checked_shl(255), None);
    assert_eq!(U256::zero().checked_shl(300), Some(U256::zero()));
    assert_eq!(U256::one().checked_shl(256), None);
    assert_eq!(x.low_160(), x.low_bits(160));
}

#[test]
fn u256_multiplication_and_division() {
    let a = dec("340282366920938463463374607431768211456");
    assert_eq!(a.checked_mul(a), None);
    assert_eq!(
        U256::from_u128(u128::MAX).checked_mul(U256::from_u128(u128::MAX)),
        Some(dec("115792089237316195423570985008687907852589419931798687112530834793049593217025"))
    );
    assert_eq!(U256::from_u64(17).checked_div_rem(U256::from_u64(5)),
        Some((U256::from_u64(3), U256::from_u64(2))));
    assert_eq!(U256::from_u64(17).checked_div_rem(U256::zero()), None);
}

#[test]
fn mul_div_is_exact_floor() {
    let q = q128();
    let half = U256::from_u64(50).checked_mul(q).unwrap().checked_div_rem(U256::from_u64(100)).unwrap().0;
    let one_and_half = U256::from_u64(150).checked_mul(q).unwrap().checked_div_rem(U256::from_u64(100)).unwrap().0;
    let third = q.checked_div_rem(U256::from_u64(3)).unwrap().0;
    assert_eq!(mul_div(q, half, one_and_half), Ok(third));
    let a = U256::from_u64(35).checked_mul(q).unwrap();
    let b = U256::from_u64(8).checked_mul(q).unwrap();
    let expected = U256::from_u64(4375).checked_mul(q).unwrap().checked_div_rem(U256::from_u64(1000)).unwrap().0;
    assert_eq!(mul_div(q, a, b), Ok(expected));
    assert_eq!(
        mul_div(U256::max_value(), U256::max_value(), U256::max_value()),
        Ok(U256::max_value())
    );
    assert_eq!(mul_div(U256::from_u64(7), U256::from_u64(3), U256::from_u64(2)), Ok(U256::from_u64(10)));
}

#[test]
fn mul_div_reports_zero_denominator_and_overflow() {
    let q = q128();
    assert_eq!(mul_div(q, U256::from_u64(5), U256::zero()), Err(ArithmeticError::MulDivError));
    assert_eq!(mul_div(q, q, U256::zero()), Err(ArithmeticError::MulDivError));
    assert_eq!(mul_div(q, q, U256::one()), Err(ArithmeticError::MulDivError));
    assert_eq!(
        mul_div(U256::max_value(), U256::max_value(), U256::max_value().wrapping_sub(U256::one())),
        Err(ArithmeticError::MulDivError)
    );
}

#[test]
fn mul_div_rounding_up_rounds_up() {
    assert_eq!(
        mul_div_rounding_up(U256::from_u64(7), U256::from_u64(3), U256::from_u64(2)),
        Ok(U256::from_u64(11))
    );
    assert_eq!(
        mul_div_rounding_up(U256::from_u64(6), U256::from_u64(3), U256::from_u64(2)),
        Ok(U256::from_u64(9))
    );
    assert_eq!(
        mul_div_rounding_up(U256::from_u64(6), U256::from_u64(3), U256::zero()),
        Err(ArithmeticError::MulDivError)
    );
    let q = q128();
    // the floor of this product over 2 is the largest value, and a remainder is left
    assert_eq!(
        mul_div(
            U256::from_u128(535006138814359),
            dec("432862656469423142931042426214547535783388063929571229938474969"),
            U256::from_u64(2)
        ),
        Ok(U256::max_value())
    );
    assert_eq!(
        mul_div_rounding_up(
            U256::from_u128(535006138814359),
            dec("432862656469423142931042426214547535783388063929571229938474969"),
            U256::from_u64(2)
        ),
        Err(ArithmeticError::MulDivError)
    );
    assert_eq!(mul_div_rounding_up(q, q, U256::max_value()), Ok(U256::from_u64(2)));
    // the floor is the largest value and a remainder is left: rounding up overflows
    assert_eq!(
        mul_div_rounding_up(U256::max_value(), U256::max_value(), U256::max_value().wrapping_sub(U256::one())),
        Err(ArithmeticError::MulDivError)
    );
}

#[test]
fn i256_signs_and_values() {
    let minus_five = I256::from_i128(-5);
    assert!(minus_five.is_negative());
    assert!(!minus_five.is_positive());
    assert_eq!(minus_five.unsigned_abs(), U256::from_u64(5));
    assert_eq!(minus_five.into_raw(), U256::max_value().wrapping_sub(U256::from_u64(4)));
    assert_eq!(I256::from_i128(i128::MIN).unsigned_abs(), U256::pow2(127));
    assert!(I256::zero().is_zero());
    assert!(I256::from_i128(3).is_positive());
    assert!(minus_five.lt(I256::from_i128(-4)));
    assert!(minus_five.lt(I256::zero()));
    assert!(!I256::from_i128(7).lt(minus_five));
    assert!(minus_five.equals(I256::from_raw(minus_five.into_raw())));
    assert_eq!(I256::try_from_u256(U256::pow2(255)), None);
    assert_eq!(
        I256::try_from_u256(U256::from_u64(9)),
        Some(I256::from_i128(9))
    );
}

#[test]
fn i256_checked_arithmetic() {
    let max = I256::from_raw(U256::pow2(255).wrapping_sub(U256::one()));
    let min = I256::from_raw(U256::pow2(255));
    assert_eq!(max.checked_add(I256::from_i128(1)), None);
    assert_eq!(min.checked_sub(I256::from_i128(1)), None);
    assert_eq!(min.checked_neg(), None);
    assert_eq!(max.checked_neg(), Some(min.checked_add(I256::from_i128(1)).unwrap()));
    assert_eq!(
        I256::from_i128(-7).checked_add(I256::from_i128(10)),
        Some(I256::from_i128(3))
    );
    assert_eq!(
        I256::from_i128(-7).checked_sub(I256::from_i128(10)),
        Some(I256::from_i128(-17))
    );
    assert_eq!(max.checked_sub(min), None);
    assert_eq!(min.checked_add(max), Some(I256::from_i128(-1)));
}

#[test]
fn accumulators_wrap_at_their_width() {
    assert_eq!(wrap_to_i56(1 << 55), -(1 << 55));
    assert_eq!(wrap_to_i56(-(1 << 55) - 1), (1 << 55) - 1);
    assert_eq!(wrapping_add_i56((1 << 55) - 1, 1), -(1 << 55));
    assert_eq!(wrapping_sub_i56(-(1 << 55), 1), (1 << 55) - 1);
    assert_eq!(wrapping_sub_i56(10, 3), 7);
    assert_eq!(wrapping_sub_u32(3, 5), u32::MAX - 1);
    assert_eq!(wrapping_sub_u32(5, 3), 2);
    let top = U256::pow2(160).wrapping_sub(U256::one());
    assert_eq!(wrapping_add_u160(top, U256::one()), U256::zero());
    assert_eq!(wrapping_sub_u160(U256::zero(), U256::one()), top);
    assert_eq!(wrapping_add_u160(U256::from_u64(2), U256::from_u64(3)), U256::from_u64(5));
}

#[test]
fn zero_address() {
    assert!(Address::zero().is_zero());
    assert!(Address::default().is_zero());
    assert!(!Address { high: 0, low: 1 }.is_zero());
    assert!(!Address { high: 1, low: 0 }.is_zero());
}
