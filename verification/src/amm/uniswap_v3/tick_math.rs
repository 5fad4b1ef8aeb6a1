//! Conversion between tick indices and square-root prices in Q64.96.

use uniswap_v3_math::error::UniswapV3MathError;
use vstd::arithmetic::power2::pow2;
use vstd::prelude::*;

use crate::amm::uniswap_v3::price_order::{
    lemma_sqrt_price_at_the_ends, lemma_tick_of_price_unique,
};
use crate::errors::ArithmeticError;
use crate::primitives::full_math::mul_div;
use crate::primitives::u256::{lemma_halves, two_pow_128, two_pow_256, two_pow_32, U256};

verus! {

/// The lowest tick that has a price.
pub const MIN_TICK: i32 = -887272;

/// The highest tick that has a price.
pub const MAX_TICK: i32 = 887272;

/// The price at `MIN_TICK`, as a number.
pub open spec fn min_sqrt_ratio_spec() -> nat {
    4295128739
}

/// The price at `MAX_TICK`, as a number.
pub open spec fn max_sqrt_ratio_spec() -> nat {
    1461446703485210103287273052203988822378723970342nat
}

/// The price at `MIN_TICK`.
pub fn min_sqrt_ratio() -> (r: U256)
    ensures
        r@ == min_sqrt_ratio_spec(),
{
    U256::from_u64(4295128739)
}

/// The price at `MAX_TICK`.
pub fn max_sqrt_ratio() -> (r: U256)
    ensures
        r@ == max_sqrt_ratio_spec(),
{
    U256 { l0: 6743328256752651558, l1: 17280870778742802505, l2: 4294805859, l3: 0 }
}

/// The Q128.128 value of `1.0001^(-2^i / 2)`, for the bits `i < 20` of a tick's magnitude.
pub open spec fn ratio_factor(i: nat) -> nat {
    if i == 0 {
        0xfffc_b933_bd6f_ad37_aa2d_162d_1a59_4001nat
    } else if i == 1 {
        0xfff9_7272_373d_4132_59a4_6990_580e_213anat
    } else if i == 2 {
        0xfff2_e50f_5f65_6932_ef12_357c_f3c7_fdccnat
    } else if i == 3 {
        0xffe5_caca_7e10_e4e6_1c36_24ea_a094_1cd0nat
    } else if i == 4 {
        0xffcb_9843_d60f_6159_c9db_5883_5c92_6644nat
    } else if i == 5 {
        0xff97_3b41_fa98_c081_472e_6896_dfb2_54c0nat
    } else if i == 6 {
        0xff2e_a164_66c9_6a38_43ec_78b3_26b5_2861nat
    } else if i == 7 {
        0xfe5d_ee04_6a99_a2a8_11c4_61f1_969c_3053nat
    } else if i == 8 {
        0xfcbe_86c7_900a_88ae_dcff_c83b_479a_a3a4nat
    } else if i == 9 {
        0xf987_a725_3ac4_1317_6f2b_074c_f781_5e54nat
    } else if i == 10 {
        0xf339_2b08_22b7_0005_940c_7a39_8e4b_70f3nat
    } else if i == 11 {
        0xe715_9475_a2c2_9b74_43b2_9c7f_a6e8_89d9nat
    } else if i == 12 {
        0xd097_f3bd_fd20_22b8_845a_d8f7_92aa_5825nat
    } else if i == 13 {
        0xa9f7_4646_2d87_0fdf_8a65_dc1f_90e0_61e5nat
    } else if i == 14 {
        0x70d8_69a1_56d2_a1b8_90bb_3df6_2baf_32f7nat
    } else if i == 15 {
        0x31be_135f_97d0_8fd9_8123_1505_542f_cfa6nat
    } else if i == 16 {
        0x9aa_508b_5b7a_84e1_c677_de54_f3e9_9bc9nat
    } else if i == 17 {
        0x5d_6af8_dedb_8119_6699_c329_225e_e604nat
    } else if i == 18 {
        0x2216_e584_f5fa_1ea9_2604_1bed_fe98nat
    } else if i == 19 {
        0x48a_1703_91f7_dc42_444e_8fa2nat
    } else {
        two_pow_128()
    }
}

/// The ratio in Q128.128 after the lowest `bits` bits of `abs_tick` have been applied:
/// each set bit multiplies by its factor and drops the low 128 bits of the product.
pub open spec fn ratio_at(abs_tick: nat, bits: nat) -> nat
    decreases bits,
{
    if bits == 0 {
        two_pow_128()
    } else {
        let before = ratio_at(abs_tick, (bits - 1) as nat);
        if (abs_tick / pow2((bits - 1) as nat)) % 2 == 1 {
            (before * ratio_factor((bits - 1) as nat)) / two_pow_128()
        } else {
            before
        }
    }
}

/// The magnitude of a tick.
pub open spec fn abs_tick(tick: int) -> nat {
    if tick < 0 {
        (-tick) as nat
    } else {
        tick as nat
    }
}

/// The ratio in Q128.128 of a tick: `1.0001^(tick / 2)`, inverted for positive ticks.
pub open spec fn ratio_of_tick(tick: int) -> nat {
    let r = ratio_at(abs_tick(tick), 20);
    if tick > 0 {
        ((two_pow_256() - 1) / (r as int)) as nat
    } else {
        r
    }
}

/// The square-root price of a tick in Q64.96: the ratio divided by 2^32, rounded up.
pub open spec fn sqrt_price_at_tick_spec(tick: int) -> nat {
    let ratio = ratio_of_tick(tick);
    if ratio % two_pow_32() == 0 {
        ratio / two_pow_32()
    } else {
        ratio / two_pow_32() + 1
    }
}

/// A lower bound of the ratio after `i` bits, whatever the tick.
pub open spec fn ratio_lower_bound(i: nat) -> nat {
    if i == 0 {
        two_pow_128()
    } else if i == 1 {
        0xfffc_b933_bd6f_ad37_aa2d_162d_1a59_4001nat
    } else if i == 2 {
        0xfff6_2bbb_6d45_8ec3_c792_1063_91dc_463enat
    } else if i == 3 {
        0xffe9_114b_9cf2_8d39_4c32_03db_d44e_b085nat
    } else if i == 4 {
        0xffce_de6f_1d8b_e90b_88f3_5042_4e84_e5b7nat
    } else if i == 5 {
        0xff9a_80c1_ada7_480b_1daa_871d_7c4d_9b36nat
    } else if i == 6 {
        0xff31_e58d_5a53_c84f_c142_023e_c1b1_dfd7nat
    } else if i == 7 {
        0xfe61_2f81_83b1_ea21_b72f_b71b_0354_2ae4nat
    } else if i == 8 {
        0xfcc1_c2f3_8053_6bc6_7ee1_ff56_4d10_80b2nat
    } else if i == 9 {
        0xf98a_d8c8_d7ec_c0a3_f8a4_2c97_24cf_fb6anat
    } else if i == 10 {
        0xf33c_4801_89b4_1523_5ad1_1942_7d89_a1f6nat
    } else if i == 11 {
        0xe718_89a8_5903_fd03_cb7c_c40b_df37_1a9cnat
    } else if i == 12 {
        0xd09a_9f3e_93db_5812_d482_0c2f_c67a_3e3anat
    } else if i == 13 {
        0xa9f9_7334_5b9e_647c_4163_af91_d00b_255fnat
    } else if i == 14 {
        0x70d9_db64_85f0_4ddd_567e_07c7_b89f_8e7cnat
    } else if i == 15 {
        0x31be_b65d_91af_63ae_717a_760b_e3b3_74dcnat
    } else if i == 16 {
        0x9aa_7036_fd23_5542_9c40_30b0_32e1_cf71nat
    } else if i == 17 {
        0x5d_6c2a_f97a_aa8d_e0e5_a6bf_23f5_e547nat
    } else if i == 18 {
        0x2217_5538_8a66_58e1_20f4_a3c5_03cfnat
    } else if i == 19 {
        0x48a_25e3_6942_a4fc_0c1f_899fnat
    } else if i == 20 {
        0x14_9b78_73d8_4d48nat
    } else {
        0
    }
}

/// The factor of bit `i`.
fn factor(i: u32) -> (r: U256)
    requires
        i < 20,
    ensures
        r@ == ratio_factor(i as nat),
        r@ < two_pow_128(),
{
    if i == 0 {
        U256::from_u128(0xfffc_b933_bd6f_ad37_aa2d_162d_1a59_4001u128)
    } else if i == 1 {
        U256::from_u128(0xfff9_7272_373d_4132_59a4_6990_580e_213au128)
    } else if i == 2 {
        U256::from_u128(0xfff2_e50f_5f65_6932_ef12_357c_f3c7_fdccu128)
    } else if i == 3 {
        U256::from_u128(0xffe5_caca_7e10_e4e6_1c36_24ea_a094_1cd0u128)
    } else if i == 4 {
        U256::from_u128(0xffcb_9843_d60f_6159_c9db_5883_5c92_6644u128)
    } else if i == 5 {
        U256::from_u128(0xff97_3b41_fa98_c081_472e_6896_dfb2_54c0u128)
    } else if i == 6 {
        U256::from_u128(0xff2e_a164_66c9_6a38_43ec_78b3_26b5_2861u128)
    } else if i == 7 {
        U256::from_u128(0xfe5d_ee04_6a99_a2a8_11c4_61f1_969c_3053u128)
    } else if i == 8 {
        U256::from_u128(0xfcbe_86c7_900a_88ae_dcff_c83b_479a_a3a4u128)
    } else if i == 9 {
        U256::from_u128(0xf987_a725_3ac4_1317_6f2b_074c_f781_5e54u128)
    } else if i == 10 {
        U256::from_u128(0xf339_2b08_22b7_0005_940c_7a39_8e4b_70f3u128)
    } else if i == 11 {
        U256::from_u128(0xe715_9475_a2c2_9b74_43b2_9c7f_a6e8_89d9u128)
    } else if i == 12 {
        U256::from_u128(0xd097_f3bd_fd20_22b8_845a_d8f7_92aa_5825u128)
    } else if i == 13 {
        U256::from_u128(0xa9f7_4646_2d87_0fdf_8a65_dc1f_90e0_61e5u128)
    } else if i == 14 {
        U256::from_u128(0x70d8_69a1_56d2_a1b8_90bb_3df6_2baf_32f7u128)
    } else if i == 15 {
        U256::from_u128(0x31be_135f_97d0_8fd9_8123_1505_542f_cfa6u128)
    } else if i == 16 {
        U256::from_u128(0x9aa_508b_5b7a_84e1_c677_de54_f3e9_9bc9u128)
    } else if i == 17 {
        U256::from_u128(0x5d_6af8_dedb_8119_6699_c329_225e_e604u128)
    } else if i == 18 {
        U256::from_u128(0x2216_e584_f5fa_1ea9_2604_1bed_fe98u128)
    } else if i == 19 {
        U256::from_u128(0x48a_1703_91f7_dc42_444e_8fa2u128)
    } else {
        U256::zero()
    }
}

/// Multiplying by a factor keeps the order and stays below 2^128.
proof fn lemma_factor_step(r: nat, low: nat, c: nat)
    requires
        low <= r <= two_pow_128(),
        c < two_pow_128(),
    ensures
        (low * c) / two_pow_128() <= (r * c) / two_pow_128() <= r,
        (r * c) / two_pow_128() < two_pow_128(),
{
    let d = two_pow_128() as int;
    assert(low * c <= r * c) by (nonlinear_arith)
        requires
            low <= r,
    ;
    assert(r * c <= r * d) by (nonlinear_arith)
        requires
            c < d,
    ;
    vstd::arithmetic::div_mod::lemma_div_is_ordered((low * c) as int, (r * c) as int, d);
    vstd::arithmetic::div_mod::lemma_div_is_ordered((r * c) as int, r * d, d);
    vstd::arithmetic::div_mod::lemma_div_multiples_vanish(r as int, d);
    assert(r * d == d * r) by (nonlinear_arith);
    if r == two_pow_128() {
        assert(r * c == c * d) by (nonlinear_arith)
            requires
                r == d,
        ;
        assert(c * d == d * c) by (nonlinear_arith);
        vstd::arithmetic::div_mod::lemma_div_multiples_vanish(c as int, d);
    }
}

/// The lower bound of one step follows from that of the step before.
proof fn lemma_lower_bound_step(i: nat)
    requires
        i < 20,
    ensures
        ratio_lower_bound(i + 1) <= (ratio_lower_bound(i) * ratio_factor(i)) / two_pow_128(),
        ratio_lower_bound(i + 1) <= ratio_lower_bound(i),
        ratio_lower_bound(i + 1) > 0,
        ratio_factor(i) < two_pow_128(),
{
}

/// After any number of bits the ratio lies between its lower bound and 2^128.
pub proof fn lemma_ratio_bounds(abs: nat, bits: nat)
    requires
        bits <= 20,
    ensures
        ratio_lower_bound(bits) <= ratio_at(abs, bits) <= two_pow_128(),
        ratio_at(abs, bits) > 0,
    decreases bits,
{
    if bits > 0 {
        let i = (bits - 1) as nat;
        lemma_ratio_bounds(abs, i);
        lemma_lower_bound_step(i);
        lemma_factor_step(ratio_at(abs, i), ratio_lower_bound(i), ratio_factor(i));
    }
}

/// The square-root price in Q64.96 at `tick`.
///
/// The ratio `1.0001^(tick / 2)` is built from one multiplication per set bit
/// of the tick's magnitude, inverted for positive ticks, and divided by 2^32
/// rounding up.
pub fn sqrt_price_at_tick(tick: i32) -> (r: U256)
    requires
        MIN_TICK <= tick <= MAX_TICK,
    ensures
        r@ == sqrt_price_at_tick_spec(tick as int),
        min_sqrt_ratio_spec() <= r@ <= max_sqrt_ratio_spec(),
{
    proof {
        crate::amm::uniswap_v3::price_order::lemma_sqrt_price_bounds(tick as int);
    }
    let abs: u32 = if tick < 0 {
        (-tick) as u32
    } else {
        tick as u32
    };
    let mut ratio: U256 = U256::pow2(128);
    let mut rest: u32 = abs;
    let mut i: u32 = 0;
    proof {
        crate::primitives::u256::lemma_two_pows();
        vstd::arithmetic::power2::lemma2_to64();
    }
    while i < 20
        invariant
            i <= 20,
            rest == abs / (pow2(i as nat) as u32),
            pow2(i as nat) <= 0x10_0000,
            ratio@ == ratio_at(abs as nat, i as nat),
            abs == abs_tick(tick as int),
        decreases 20 - i,
    {
        let bit_set: bool = rest % 2 == 1;
        proof {
            crate::primitives::u256::lemma_two_pows();
            lemma_ratio_bounds(abs as nat, i as nat);
            lemma_lower_bound_step(i as nat);
            lemma_factor_step(ratio@, ratio@, ratio_factor(i as nat));
            vstd::arithmetic::power2::lemma_pow2_unfold((i + 1) as nat);
            vstd::arithmetic::power2::lemma_pow2_pos(i as nat);
            vstd::arithmetic::div_mod::lemma_div_denominator(
                abs as int,
                pow2(i as nat) as int,
                2,
            );
            vstd::arithmetic::power2::lemma_pow2_strictly_increases(i as nat, 20);
            vstd::arithmetic::power2::lemma2_to64();
        }
        if bit_set {
            let c: U256 = factor(i);
            match mul_div(ratio, c, U256::pow2(128)) {
                Ok(next) => {
                    ratio = next;
                },
                Err(_) => {
                    assert(false);
                },
            }
        }
        rest = rest / 2;
        i = i + 1;
    }
    proof {
        crate::primitives::u256::lemma_two_pows();
        lemma_ratio_bounds(abs as nat, 20);
        lemma_halves(ratio);
    }
    if tick > 0 {
        match U256::max_value().checked_div_rem(ratio) {
            Some(qr) => {
                ratio = qr.0;
            },
            None => {
                assert(false);
            },
        }
    }
    proof {
        lemma_halves(ratio);
        vstd::arithmetic::div_mod::lemma_div_is_ordered_by_denominator(
            ratio@ as int,
            1,
            two_pow_32() as int,
        );
    }
    match ratio.checked_div_rem(U256::pow2(32)) {
        Some(qr) => {
            if qr.1.is_zero() {
                qr.0
            } else {
                match qr.0.checked_add(U256::one()) {
                    Some(up) => up,
                    None => {
                        assert(false);
                        qr.0
                    },
                }
            }
        },
        None => {
            assert(false);
            ratio
        },
    }
}

/// Calls `uniswap_v3_math::tick_math::get_tick_at_sqrt_ratio`.
///
/// The contract claims nothing of the result: the tick that the call
/// proposes is held against the prices of ticks before it is used; see
/// [`tick_from_candidate`].
#[verifier::external_body]
fn get_tick_at_sqrt_ratio_outside(sqrt_price: U256) -> (r: Result<i32, UniswapV3MathError>) {
    uniswap_v3_math::tick_math::get_tick_at_sqrt_ratio(
        alloy::primitives::U256::from_limbs(sqrt_price.into_limbs()),
    )
}

/// Whether `tick` is the tick of the price `sqrt_price`: a tick between
/// `MIN_TICK` and `MAX_TICK` whose price is at most `sqrt_price`, while the
/// price of the next tick is above it. As prices rise with ticks, it is the
/// greatest tick whose price is at most `sqrt_price`.
pub open spec fn is_tick_of_price(tick: int, sqrt_price: nat) -> bool {
    &&& MIN_TICK <= tick <= MAX_TICK
    &&& sqrt_price_at_tick_spec(tick) <= sqrt_price
    &&& tick < MAX_TICK ==> sqrt_price < sqrt_price_at_tick_spec(tick + 1)
}

/// The tick of a price; see [`is_tick_of_price`].
pub open spec fn tick_of_price(sqrt_price: nat) -> int {
    choose|tick: int| is_tick_of_price(tick, sqrt_price)
}

/// The tick of a price from the price of `MIN_TICK` up to, but not
/// including, the price of `MAX_TICK`; a failure for every other price.
pub open spec fn tick_at_sqrt_price_spec(sqrt_price: nat) -> Result<i32, ArithmeticError> {
    if min_sqrt_ratio_spec() <= sqrt_price < max_sqrt_ratio_spec() {
        Ok(tick_of_price(sqrt_price) as i32)
    } else {
        Err(ArithmeticError::SqrtPriceOutOfBounds)
    }
}

/// Whether `tick` is the tick of `sqrt_price`; see [`is_tick_of_price`].
pub fn holds_price(tick: i32, sqrt_price: U256) -> (r: bool)
    ensures
        r == is_tick_of_price(tick as int, sqrt_price@),
{
    if tick < MIN_TICK || tick > MAX_TICK {
        return false;
    }
    if sqrt_price_at_tick(tick).gt(sqrt_price) {
        return false;
    }
    tick == MAX_TICK || sqrt_price.lt(sqrt_price_at_tick(tick + 1))
}

/// Finds the tick of a price by bisection on the prices of ticks.
pub fn search_tick(sqrt_price: U256) -> (r: i32)
    requires
        min_sqrt_ratio_spec() <= sqrt_price@ < max_sqrt_ratio_spec(),
    ensures
        is_tick_of_price(r as int, sqrt_price@),
{
    let mut low: i32 = MIN_TICK;
    let mut high: i32 = MAX_TICK;
    proof {
        lemma_sqrt_price_at_the_ends();
    }
    while high - low > 1
        invariant
            MIN_TICK <= low < high <= MAX_TICK,
            sqrt_price_at_tick_spec(low as int) <= sqrt_price@ < sqrt_price_at_tick_spec(
                high as int,
            ),
        decreases high - low,
    {
        let mid: i32 = low + (high - low) / 2;
        if sqrt_price_at_tick(mid).le(sqrt_price) {
            low = mid;
        } else {
            high = mid;
        }
    }
    low
}

/// The tick of `sqrt_price`, given the tick that the logarithm routine
/// proposes for it: the proposed tick where it is the tick of the price,
/// and the tick that the search finds where it is not, or where none was
/// proposed. Fails on a price outside the range.
pub fn tick_from_candidate(candidate: Option<i32>, sqrt_price: U256) -> (r: Result<
    i32,
    ArithmeticError,
>)
    ensures
        r == tick_at_sqrt_price_spec(sqrt_price@),
        r is Ok <==> min_sqrt_ratio_spec() <= sqrt_price@ < max_sqrt_ratio_spec(),
        r matches Ok(tick) ==> is_tick_of_price(tick as int, sqrt_price@),
{
    if sqrt_price.lt(min_sqrt_ratio()) || !sqrt_price.lt(max_sqrt_ratio()) {
        return Err(ArithmeticError::SqrtPriceOutOfBounds);
    }
    let proposed: bool = match candidate {
        Some(tick) => holds_price(tick, sqrt_price),
        None => false,
    };
    let tick: i32 = match candidate {
        Some(tick) if proposed => tick,
        _ => search_tick(sqrt_price),
    };
    proof {
        lemma_tick_of_price_unique(tick as int, tick_of_price(sqrt_price@), sqrt_price@);
    }
    Ok(tick)
}

/// The tick of the square-root price `sqrt_price`: the greatest tick
/// whose price is at most `sqrt_price`.
///
/// The tick is computed by logarithm and then held against the prices of
/// the tick and of the next tick. Fails on a price outside the range from
/// the price of `MIN_TICK` up to, but not including, that of `MAX_TICK`.
pub fn tick_at_sqrt_price(sqrt_price: U256) -> (r: Result<i32, ArithmeticError>)
    ensures
        r == tick_at_sqrt_price_spec(sqrt_price@),
        r is Ok <==> min_sqrt_ratio_spec() <= sqrt_price@ < max_sqrt_ratio_spec(),
        r matches Ok(tick) ==> is_tick_of_price(tick as int, sqrt_price@),
{
    let candidate: Option<i32> = match get_tick_at_sqrt_ratio_outside(sqrt_price) {
        Ok(tick) => Some(tick),
        Err(_) => None,
    };
    tick_from_candidate(candidate, sqrt_price)
}

} // verus!
