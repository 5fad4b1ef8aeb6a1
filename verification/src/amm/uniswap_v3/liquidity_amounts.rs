//! Token amounts of a liquidity change between two prices, and the
//! liquidity that given token amounts pay for.

use vstd::prelude::*;

use crate::amm::uniswap_v3::liquidity_math::magnitude;
use crate::amm::uniswap_v3::pool::{OverflowError, UniswapV3Pool};
use crate::amm::uniswap_v3::tick_math::{
    sqrt_price_at_tick, sqrt_price_at_tick_spec, MAX_TICK, MIN_TICK,
};
use crate::errors::{AMMError, ArithmeticError};
use crate::primitives::full_math::{
    ceil_div, mul_div, mul_div_rounding_up, mul_div_rounding_up_spec, mul_div_spec,
};
use crate::primitives::i256::{i256_from_int, lemma_i256_from_int_view};
use crate::primitives::u256::{
    lemma_from_nat_view, lemma_halves, lemma_two_pows, two_pow_128, two_pow_160, two_pow_256,
    two_pow_96, u256_from_nat,
};
use crate::primitives::{I256, U256};

verus! {

/// The magnitude of a liquidity change.
pub open spec fn magnitude_spec(liquidity: i128) -> nat {
    if liquidity < 0 {
        (-liquidity) as nat
    } else {
        liquidity as nat
    }
}

/// The lower of two prices.
pub open spec fn lower_price(a: U256, b: U256) -> nat {
    if a@ > b@ {
        b@
    } else {
        a@
    }
}

/// The higher of two prices.
pub open spec fn higher_price(a: U256, b: U256) -> nat {
    if a@ > b@ {
        a@
    } else {
        b@
    }
}

/// The amount of token 0 that a liquidity change between two prices takes
/// (positive, rounded up) or gives (negative, rounded down):
/// `liquidity * 2^96 * (high - low) / high / low`.
pub open spec fn amount_0_delta_spec(a: U256, b: U256, liquidity: i128) -> Result<I256, AMMError> {
    let low = lower_price(a, b);
    let high = higher_price(a, b);
    let numerator1 = magnitude_spec(liquidity) * two_pow_96();
    let numerator2 = (high - low) as nat;
    if low == 0 {
        Err(AMMError::ArithmeticError(ArithmeticError::MulDivError))
    } else if liquidity < 0 {
        match mul_div_spec(numerator1, numerator2, high) {
            None => Err(AMMError::ArithmeticError(ArithmeticError::MulDivError)),
            Some(partial) => if partial / low > I256::max_int() {
                Err(AMMError::ArithmeticError(ArithmeticError::I256ConversionError))
            } else {
                Ok(i256_from_int(-((partial / low) as int)))
            },
        }
    } else {
        match mul_div_rounding_up_spec(numerator1, numerator2, high) {
            None => Err(AMMError::ArithmeticError(ArithmeticError::MulDivError)),
            Some(partial) => if ceil_div(partial, low) > I256::max_int() {
                Err(AMMError::ArithmeticError(ArithmeticError::I256ConversionError))
            } else {
                Ok(i256_from_int(ceil_div(partial, low) as int))
            },
        }
    }
}

/// The amount of token 1 that a liquidity change between two prices takes
/// (positive, rounded up) or gives (negative, rounded down):
/// `liquidity * (high - low) / 2^96`.
pub open spec fn amount_1_delta_spec(a: U256, b: U256, liquidity: i128) -> Result<I256, AMMError> {
    let low = lower_price(a, b);
    let high = higher_price(a, b);
    let difference = (high - low) as nat;
    if liquidity < 0 {
        match mul_div_spec(magnitude_spec(liquidity), difference, two_pow_96()) {
            None => Err(AMMError::ArithmeticError(ArithmeticError::MulDivError)),
            Some(amount) => if amount > I256::max_int() {
                Err(AMMError::ArithmeticError(ArithmeticError::I256ConversionError))
            } else {
                Ok(i256_from_int(-(amount as int)))
            },
        }
    } else {
        match mul_div_rounding_up_spec(magnitude_spec(liquidity), difference, two_pow_96()) {
            None => Err(AMMError::ArithmeticError(ArithmeticError::MulDivError)),
            Some(amount) => if amount > I256::max_int() {
                Err(AMMError::ArithmeticError(ArithmeticError::I256ConversionError))
            } else {
                Ok(i256_from_int(amount as int))
            },
        }
    }
}

/// Orders two prices, the lower one first.
fn sort_prices(a: U256, b: U256) -> (r: (U256, U256))
    ensures
        r.0@ == lower_price(a, b),
        r.1@ == higher_price(a, b),
{
    if a.gt(b) {
        (b, a)
    } else {
        (a, b)
    }
}

/// A magnitude as a signed amount with the given sign.
fn signed_amount(amount: U256, negative: bool) -> (r: Result<I256, AMMError>)
    ensures
        r == (if amount@ > I256::max_int() {
            Err::<I256, AMMError>(AMMError::ArithmeticError(ArithmeticError::I256ConversionError))
        } else if negative {
            Ok::<I256, AMMError>(i256_from_int(-(amount@ as int)))
        } else {
            Ok::<I256, AMMError>(i256_from_int(amount@ as int))
        }),
{
    broadcast use lemma_i256_from_int_view;

    match I256::try_from_u256(amount) {
        None => Err(AMMError::ArithmeticError(ArithmeticError::I256ConversionError)),
        Some(v) => {
            if negative {
                match v.checked_neg() {
                    Some(n) => Ok(n),
                    None => {
                        assert(false);
                        Ok(v)
                    },
                }
            } else {
                Ok(v)
            }
        },
    }
}

/// Computes the amount of token 0 of a liquidity change; see
/// [`amount_0_delta_spec`].
pub fn get_amount_0_delta(a: U256, b: U256, liquidity: i128) -> (r: Result<I256, AMMError>)
    ensures
        r == amount_0_delta_spec(a, b, liquidity),
{
    let (low, high): (U256, U256) = sort_prices(a, b);
    if low.is_zero() {
        return Err(AMMError::ArithmeticError(ArithmeticError::MulDivError));
    }
    proof {
        lemma_two_pows();
        assert(magnitude_spec(liquidity) * two_pow_96() < two_pow_256()) by (nonlinear_arith)
            requires
                magnitude_spec(liquidity) <= two_pow_128(),
                two_pow_256() == two_pow_128() * two_pow_128(),
                two_pow_96() < two_pow_128(),
        ;
    }
    let numerator1: U256 = match U256::from_u128(magnitude(liquidity)).checked_shl(96) {
        Some(n) => n,
        None => {
            assert(false);
            U256::zero()
        },
    };
    let numerator2: U256 = match high.checked_sub(low) {
        Some(n) => n,
        None => {
            assert(false);
            U256::zero()
        },
    };
    if liquidity < 0 {
        let partial: U256 = match mul_div(numerator1, numerator2, high) {
            Ok(p) => p,
            Err(e) => {
                return Err(AMMError::ArithmeticError(e));
            },
        };
        match partial.checked_div_rem(low) {
            Some(qr) => signed_amount(qr.0, true),
            None => {
                assert(false);
                Err(AMMError::ArithmeticError(ArithmeticError::MulDivError))
            },
        }
    } else {
        let partial: U256 = match mul_div_rounding_up(numerator1, numerator2, high) {
            Ok(p) => p,
            Err(e) => {
                return Err(AMMError::ArithmeticError(e));
            },
        };
        match partial.checked_div_rem(low) {
            Some(qr) => {
                if qr.1.is_zero() {
                    signed_amount(qr.0, false)
                } else {
                    match qr.0.checked_add(U256::one()) {
                        Some(up) => signed_amount(up, false),
                        None => Err(
                            AMMError::ArithmeticError(ArithmeticError::I256ConversionError),
                        ),
                    }
                }
            },
            None => {
                assert(false);
                Err(AMMError::ArithmeticError(ArithmeticError::MulDivError))
            },
        }
    }
}

/// Computes the amount of token 1 of a liquidity change; see
/// [`amount_1_delta_spec`].
pub fn get_amount_1_delta(a: U256, b: U256, liquidity: i128) -> (r: Result<I256, AMMError>)
    ensures
        r == amount_1_delta_spec(a, b, liquidity),
{
    let (low, high): (U256, U256) = sort_prices(a, b);
    let difference: U256 = match high.checked_sub(low) {
        Some(n) => n,
        None => {
            assert(false);
            U256::zero()
        },
    };
    proof {
        lemma_two_pows();
    }
    let size: U256 = U256::from_u128(magnitude(liquidity));
    if liquidity < 0 {
        match mul_div(size, difference, U256::pow2(96)) {
            Ok(amount) => signed_amount(amount, true),
            Err(e) => Err(AMMError::ArithmeticError(e)),
        }
    } else {
        match mul_div_rounding_up(size, difference, U256::pow2(96)) {
            Ok(amount) => signed_amount(amount, false),
            Err(e) => Err(AMMError::ArithmeticError(e)),
        }
    }
}

/// The liquidity that `amount0` of token 0 pays for between two 160-bit
/// prices: `amount0 * (low * high / 2^96) / (high - low)`; the highest
/// liquidity between equal prices. Fails where a price does not fit 160
/// bits or the liquidity does not fit 128 bits.
pub open spec fn amount_0_delta_inverted_spec(a: U256, b: U256, amount0: U256) -> Result<
    u128,
    OverflowError,
> {
    let low = lower_price(a, b);
    let high = higher_price(a, b);
    if low == high {
        Ok(u128::MAX)
    } else if high >= two_pow_160() {
        Err(OverflowError)
    } else {
        let liquidity = (amount0@ * ((low * high) / two_pow_96())) / ((high - low) as nat);
        if liquidity > u128::MAX {
            Err(OverflowError)
        } else {
            Ok(liquidity as u128)
        }
    }
}

/// The liquidity that `amount1` of token 1 pays for between two prices:
/// `amount1 * 2^96 / (high - low)`; the highest liquidity between equal
/// prices. Fails where the liquidity does not fit 128 bits.
pub open spec fn amount_1_delta_inverted_spec(a: U256, b: U256, amount1: U256) -> Result<
    u128,
    OverflowError,
> {
    let low = lower_price(a, b);
    let high = higher_price(a, b);
    if low == high {
        Ok(u128::MAX)
    } else {
        let liquidity = (amount1@ * two_pow_96()) / ((high - low) as nat);
        if liquidity > u128::MAX {
            Err(OverflowError)
        } else {
            Ok(liquidity as u128)
        }
    }
}

/// Computes the liquidity that an amount of token 0 pays for; see
/// [`amount_0_delta_inverted_spec`].
pub fn get_amount_0_delta_inverted(a: U256, b: U256, amount0: U256) -> (r: Result<
    u128,
    OverflowError,
>)
    ensures
        r == amount_0_delta_inverted_spec(a, b, amount0),
{
    let (low, high): (U256, U256) = sort_prices(a, b);
    if low.equals(high) {
        return Ok(u128::MAX);
    }
    proof {
        lemma_two_pows();
        lemma_halves(low);
        lemma_halves(high);
        lemma_halves(amount0);
    }
    if high.ge(U256::pow2(160)) {
        return Err(OverflowError);
    }
    proof {
        assert(low@ * high@ < two_pow_160() * two_pow_160()) by (nonlinear_arith)
            requires
                low@ < high@,
                high@ < two_pow_160(),
        ;
        assert((low@ * high@) / two_pow_96() < two_pow_256()) by {
            vstd::arithmetic::div_mod::lemma_div_is_ordered_by_denominator(
                (low@ * high@) as int,
                1,
                two_pow_96() as int,
            );
        }
    }
    let product: U256 = match mul_div(low, high, U256::pow2(96)) {
        Ok(p) => p,
        Err(_) => {
            assert(false);
            U256::zero()
        },
    };
    let difference: U256 = match high.checked_sub(low) {
        Some(d) => d,
        None => {
            assert(false);
            U256::zero()
        },
    };
    match mul_div(amount0, product, difference) {
        Ok(liquidity) => match liquidity.to_u128() {
            Some(l) => Ok(l),
            None => Err(OverflowError),
        },
        Err(_) => Err(OverflowError),
    }
}

/// Computes the liquidity that an amount of token 1 pays for; see
/// [`amount_1_delta_inverted_spec`].
pub fn get_amount_1_delta_inverted(a: U256, b: U256, amount1: U256) -> (r: Result<
    u128,
    OverflowError,
>)
    ensures
        r == amount_1_delta_inverted_spec(a, b, amount1),
{
    let (low, high): (U256, U256) = sort_prices(a, b);
    if low.equals(high) {
        return Ok(u128::MAX);
    }
    proof {
        lemma_two_pows();
        lemma_halves(low);
        lemma_halves(high);
        lemma_halves(amount1);
    }
    let difference: U256 = match high.checked_sub(low) {
        Some(d) => d,
        None => {
            assert(false);
            U256::zero()
        },
    };
    match mul_div(amount1, U256::pow2(96), difference) {
        Ok(liquidity) => match liquidity.to_u128() {
            Some(l) => Ok(l),
            None => Err(OverflowError),
        },
        Err(_) => Err(OverflowError),
    }
}

/// The lower of two liquidity results, or the first failure.
pub open spec fn min_liquidity_spec(
    first: Result<u128, OverflowError>,
    second: Result<u128, OverflowError>,
) -> Result<u128, OverflowError> {
    match first {
        Err(e) => Err(e),
        Ok(x) => match second {
            Err(e) => Err(e),
            Ok(y) => Ok(
                if x < y {
                    x
                } else {
                    y
                },
            ),
        },
    }
}

/// The most liquidity that the amounts pay for in the range between two
/// ticks at the current price: below the range only token 0 counts, above
/// it only token 1, and inside it the lesser of what each token pays for.
pub open spec fn mint_helper_spec(
    current_tick: i32,
    sqrt_price: U256,
    amount0: U256,
    amount1: U256,
    tick_lower: i32,
    tick_upper: i32,
) -> Result<u128, OverflowError> {
    let price_lower = u256_from_nat(sqrt_price_at_tick_spec(tick_lower as int));
    let price_upper = u256_from_nat(sqrt_price_at_tick_spec(tick_upper as int));
    if current_tick < tick_lower {
        amount_0_delta_inverted_spec(price_lower, price_upper, amount0)
    } else if current_tick < tick_upper {
        min_liquidity_spec(
            amount_0_delta_inverted_spec(sqrt_price, price_upper, amount0),
            amount_1_delta_inverted_spec(price_lower, sqrt_price, amount1),
        )
    } else {
        amount_1_delta_inverted_spec(price_lower, price_upper, amount1)
    }
}

impl UniswapV3Pool {
    /// The most liquidity that `amount0` and `amount1` pay for in the range
    /// between two ticks; see [`mint_helper_spec`].
    pub fn mint_helper(&self, amount0: U256, amount1: U256, tick_lower: i32, tick_upper: i32) -> (r:
        Result<u128, OverflowError>)
        requires
            MIN_TICK <= tick_lower <= MAX_TICK,
            MIN_TICK <= tick_upper <= MAX_TICK,
        ensures
            r == mint_helper_spec(
                self.slot0.tick,
                self.slot0.sqrt_price_x96,
                amount0,
                amount1,
                tick_lower,
                tick_upper,
            ),
    {
        broadcast use lemma_from_nat_view;

        if self.slot0.tick < tick_lower {
            get_amount_0_delta_inverted(
                sqrt_price_at_tick(tick_lower),
                sqrt_price_at_tick(tick_upper),
                amount0,
            )
        } else if self.slot0.tick < tick_upper {
            let liquidity_lower: u128 = get_amount_0_delta_inverted(
                self.slot0.sqrt_price_x96,
                sqrt_price_at_tick(tick_upper),
                amount0,
            )?;
            let liquidity_upper: u128 = get_amount_1_delta_inverted(
                sqrt_price_at_tick(tick_lower),
                self.slot0.sqrt_price_x96,
                amount1,
            )?;
            if liquidity_lower < liquidity_upper {
                Ok(liquidity_lower)
            } else {
                Ok(liquidity_upper)
            }
        } else {
            get_amount_1_delta_inverted(
                sqrt_price_at_tick(tick_lower),
                sqrt_price_at_tick(tick_upper),
                amount1,
            )
        }
    }
}

} // verus!
