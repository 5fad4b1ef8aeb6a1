//! The order of square-root prices: a higher tick has a higher price.

use vstd::arithmetic::div_mod::{
    lemma_div_is_ordered, lemma_div_is_ordered_by_denominator, lemma_div_multiples_vanish,
    lemma_fundamental_div_mod, lemma_fundamental_div_mod_converse,
    lemma_mod_division_less_than_divisor, lemma_small_mod,
};
use vstd::arithmetic::power2::{lemma_pow2_pos, lemma_pow2_unfold, pow2};
use vstd::prelude::*;

use crate::amm::uniswap_v3::tick_math::{
    abs_tick, lemma_ratio_bounds, ratio_at, ratio_factor, ratio_lower_bound, ratio_of_tick,
    is_tick_of_price, sqrt_price_at_tick_spec, tick_at_sqrt_price_spec, tick_of_price, MAX_TICK,
    MIN_TICK,
};
use crate::errors::ArithmeticError;
use crate::primitives::u256::{two_pow_128, two_pow_256, two_pow_32};

verus! {

/// A lower bound of how far the ratio of a magnitude lies above the ratio
/// of the next magnitude, once the bits in which the two differ are among
/// the lowest `i` bits.
pub open spec fn ratio_gap_bound(i: nat) -> nat {
    if i == 1 {
        0x3_46cc_4290_52c8_55d2_e9d2_e5a6_bfffnat
    } else if i == 2 {
        0x3_46b6_c9f7_b26e_9212_592c_c631_dafbnat
    } else if i == 3 {
        0x3_468b_da6c_86cd_4bdf_2b0b_a5a1_990anat
    } else if i == 4 {
        0x3_4636_01ee_1eff_3c3d_e417_1582_f834nat
    } else if i == 5 {
        0x3_458a_6b4d_e6de_36a7_b326_0cbb_f634nat
    } else if i == 6 {
        0x3_4433_a766_a6a7_a548_ab33_e686_efc6nat
    } else if i == 7 {
        0x3_4187_c433_c4a6_5ee2_2081_6da3_87fcnat
    } else if i == 8 {
        0x3_3c36_89f8_3d89_2733_6aae_4d91_4b57nat
    } else if i == 9 {
        0x3_31ae_1454_ef6e_a07f_0cf6_ba0a_0d52nat
    } else if i == 10 {
        0x3_1d03_9a72_cecc_ecc7_90cc_51b7_ef34nat
    } else if i == 11 {
        0x2_f53c_6761_4cfe_e4dd_0e96_18c8_f55enat
    } else if i == 12 {
        0x2_ab89_5660_2944_ae6d_2fc5_91cf_181cnat
    } else if i == 13 {
        0x2_2cf5_4efe_b97e_b9a3_00e0_64a9_6e7anat
    } else if i == 14 {
        0x1_71c7_eab9_21f3_d8f9_3c9c_fd41_17f2nat
    } else if i == 15 {
        0xa300_0ff3_1679_4a79_8bcd_54c4_f602nat
    } else if i == 16 {
        0x1fac_096f_3c96_b033_bf75_329d_cfdcnat
    } else if i == 17 {
        0x132_1e8a_2dac_ba5f_7e26_14c3_2cf2nat
    } else if i == 18 {
        0x6fb5_026f_e17b_ccc5_1380_f07dnat
    } else if i == 19 {
        0xee0_0808_0168_87b4_40f4nat
    } else if i == 20 {
        0x43_863a_ca2anat
    } else {
        0
    }
}

/// With all of its lowest `i` bits set, a magnitude has the lowest ratio
/// after `i` bits.
proof fn lemma_all_ones_step(i: nat)
    requires
        i < 20,
    ensures
        (ratio_lower_bound(i) * ratio_factor(i)) / two_pow_128() == ratio_lower_bound(i + 1),
        ratio_factor(i) < two_pow_128(),
        ratio_lower_bound(i) <= two_pow_128(),
        ratio_factor(i) <= ratio_lower_bound(i),
{
}

/// The gap bound of one more bit is below what a gap shrinks to under the
/// factor of that bit, and below the gap that opens at that bit.
proof fn lemma_gap_step(i: nat)
    requires
        i < 20,
    ensures
        i >= 1 ==> ratio_gap_bound(i + 1) <= (ratio_gap_bound(i) * ratio_factor(i))
            / two_pow_128(),
        ratio_gap_bound(i + 1) <= ratio_lower_bound(i) - ratio_factor(i),
        ratio_gap_bound(i + 1) <= two_pow_128(),
        ratio_gap_bound(20) >= 0x2_0000_0000,
{
}

/// How the lowest bits of a number and of its successor go on by one bit.
proof fn lemma_low_bits_step(n: nat, j: nat)
    ensures
        n % pow2(j + 1) == n % pow2(j) + pow2(j) * ((n / pow2(j)) % 2),
        n % pow2(j) < pow2(j),
        (n + 1) / pow2(j) == n / pow2(j) + (if n % pow2(j) == pow2(j) - 1 {
            1nat
        } else {
            0nat
        }),
{
    lemma_pow2_pos(j);
    lemma_pow2_unfold(j + 1);
    let p = pow2(j) as int;
    let q = (n as int) / p;
    let r = (n as int) % p;
    lemma_fundamental_div_mod(n as int, p);
    lemma_mod_division_less_than_divisor(n as int, p);
    let b = q % 2;
    let half = q / 2;
    assert(n == (2 * p) * half + (p * b + r)) by (nonlinear_arith)
        requires
            n == p * q + r,
            q == 2 * half + b,
    ;
    assert(0 <= p * b + r < 2 * p) by (nonlinear_arith)
        requires
            0 <= r < p,
            b == 0 || b == 1,
    ;
    lemma_fundamental_div_mod_converse(n as int, 2 * p, half, p * b + r);
    if r == p - 1 {
        assert(n + 1 == (q + 1) * p + 0) by (nonlinear_arith)
            requires
                n == p * q + r,
                r == p - 1,
        ;
        lemma_fundamental_div_mod_converse((n + 1) as int, p, q + 1, 0);
    } else {
        assert(n + 1 == q * p + (r + 1)) by (nonlinear_arith)
            requires
                n == p * q + r,
        ;
        lemma_fundamental_div_mod_converse((n + 1) as int, p, q, r + 1);
    }
}

/// Multiplying by a factor and dropping 128 bits keeps a gap, up to the
/// same done to the gap.
proof fn lemma_gap_under_factor(x: nat, y: nat, g: nat, c: nat)
    requires
        x >= y + g,
    ensures
        (x * c) / two_pow_128() >= (y * c) / two_pow_128() + (g * c) / two_pow_128(),
{
    let d = two_pow_128() as int;
    let a = (y * c) as int;
    let b = (g * c) as int;
    lemma_fundamental_div_mod(a, d);
    lemma_fundamental_div_mod(b, d);
    lemma_mod_division_less_than_divisor(a, d);
    lemma_mod_division_less_than_divisor(b, d);
    assert(x * c >= a + b) by (nonlinear_arith)
        requires
            x >= y + g,
            a == y * c,
            b == g * c,
    ;
    assert(a + b >= d * (a / d + b / d));
    lemma_div_is_ordered(d * (a / d + b / d), (x * c) as int, d);
    lemma_div_multiples_vanish(a / d + b / d, d);
}

/// A factor does not raise what it is applied to.
proof fn lemma_factor_shrinks(g: nat, c: nat)
    requires
        c < two_pow_128(),
    ensures
        (g * c) / two_pow_128() <= g,
{
    let d = two_pow_128() as int;
    assert(g * c <= d * g) by (nonlinear_arith)
        requires
            c < d,
    ;
    lemma_div_is_ordered((g * c) as int, d * g, d);
    lemma_div_multiples_vanish(g as int, d);
}

/// After `bits` bits, the ratios of a magnitude and of the next one are
/// either at the start of a carry, or apart by the gap bound.
pub proof fn lemma_adjacent_ratios(n: nat, bits: nat)
    requires
        bits <= 20,
    ensures
        n % pow2(bits) == pow2(bits) - 1 ==> ratio_at(n, bits) == ratio_lower_bound(bits)
            && ratio_at(n + 1, bits) == two_pow_128(),
        n % pow2(bits) != pow2(bits) - 1 ==> ratio_at(n, bits) >= ratio_at(n + 1, bits)
            + ratio_gap_bound(bits),
    decreases bits,
{
    if bits == 0 {
        vstd::arithmetic::power2::lemma2_to64();
        assert(n % 1 == 0);
    } else {
        let j = (bits - 1) as nat;
        lemma_adjacent_ratios(n, j);
        lemma_low_bits_step(n, j);
        lemma_all_ones_step(j);
        lemma_gap_step(j);
        lemma_pow2_pos(j);
        lemma_pow2_unfold(j + 1);
        vstd::arithmetic::power2::lemma2_to64();
        let d = two_pow_128();
        let c = ratio_factor(j);
        let a = ratio_at(n, j);
        let b = ratio_at(n + 1, j);
        let bit = (n / pow2(j)) % 2;
        let next_bit = ((n + 1) / pow2(j)) % 2;
        assert(ratio_at(n, bits) == (if bit == 1 {
            (a * c) / d
        } else {
            a
        }));
        assert(ratio_at(n + 1, bits) == (if next_bit == 1 {
            (b * c) / d
        } else {
            b
        }));
        if n % pow2(j) == pow2(j) - 1 {
            assert(next_bit == 1 - bit);
            if bit == 1 {
                assert(pow2(j) * 1 == pow2(j));
                assert(n % pow2(bits) == pow2(bits) - 1);
            } else {
                assert(pow2(j) * 0 == 0);
                assert(n % pow2(bits) != pow2(bits) - 1);
                assert((d * c) / d == c) by {
                    lemma_div_multiples_vanish(c as int, d as int);
                }
                assert(ratio_at(n + 1, bits) == c);
            }
        } else {
            assert(j >= 1) by {
                if j == 0 {
                    assert(n % 1 == 0);
                }
            }
            assert(next_bit == bit);
            let g = ratio_gap_bound(j);
            if bit == 1 {
                assert(pow2(j) * 1 == pow2(j));
                assert(n % pow2(bits) != pow2(bits) - 1);
                lemma_gap_under_factor(a, b, g, c);
            } else {
                assert(pow2(j) * 0 == 0);
                assert(n % pow2(bits) != pow2(bits) - 1);
                lemma_factor_shrinks(g, c);
            }
        }
    }
}

/// The ratio of a magnitude below 2^20 - 1 lies above the ratio of the
/// next magnitude by more than 2^33.
pub proof fn lemma_ratio_decreasing(n: nat)
    requires
        n < 0xf_ffff,
    ensures
        ratio_at(n, 20) >= ratio_at(n + 1, 20) + 0x2_0000_0000,
        0 < ratio_at(n + 1, 20) <= ratio_at(n, 20) <= two_pow_128(),
{
    vstd::arithmetic::power2::lemma2_to64();
    lemma_small_mod(n, pow2(20));
    lemma_adjacent_ratios(n, 20);
    lemma_gap_step(19);
    lemma_ratio_bounds(n, 20);
    lemma_ratio_bounds(n + 1, 20);
}

/// The quotient by 2^32 rounded up.
pub open spec fn ceil_shift_32(ratio: nat) -> nat {
    if ratio % two_pow_32() == 0 {
        ratio / two_pow_32()
    } else {
        ratio / two_pow_32() + 1
    }
}

/// Rounding up after the division by 2^32 keeps two ratios apart that
/// are more than 2^32 apart.
proof fn lemma_ceil_shift_order(low: nat, high: nat)
    requires
        high >= low + two_pow_32() + 1,
    ensures
        ceil_shift_32(low) < ceil_shift_32(high),
{
    let d = two_pow_32() as int;
    lemma_fundamental_div_mod(low as int, d);
    lemma_fundamental_div_mod(high as int, d);
    lemma_mod_division_less_than_divisor(low as int, d);
    lemma_mod_division_less_than_divisor(high as int, d);
}

/// The inverse of a lower ratio lies above the inverse of a higher ratio,
/// by the gap of the two ratios less one.
proof fn lemma_inverse_order(x: nat, y: nat, g: nat)
    requires
        0 < y,
        x >= y + g,
        x <= two_pow_128(),
        g >= 1,
    ensures
        ((two_pow_256() - 1) / (y as int)) >= ((two_pow_256() - 1) / (x as int)) + g - 1,
        ((two_pow_256() - 1) / (x as int)) >= two_pow_128() - 1,
{
    let m = two_pow_256() as int - 1;
    let d = two_pow_128() as int;
    let qx = m / (x as int);
    lemma_fundamental_div_mod(m, x as int);
    lemma_mod_division_less_than_divisor(m, x as int);
    lemma_div_is_ordered_by_denominator(m, x as int, d);
    assert(m / d == d - 1) by {
        lemma_fundamental_div_mod_converse(m, d, d - 1, d - 1);
    }
    assert(m >= (qx + g - 1) * y) by (nonlinear_arith)
        requires
            m >= x * qx,
            x >= y + g,
            qx >= d - 1,
            y <= d,
            g >= 1,
            g <= d,
            y > 0,
    ;
    lemma_div_is_ordered((qx + g - 1) * y, m, y as int);
    assert((qx + g - 1) * y == (y as int) * (qx + g - 1)) by (nonlinear_arith);
    lemma_div_multiples_vanish(qx + g - 1, y as int);
}

/// The square-root price of a tick is below that of the next tick.
pub proof fn lemma_sqrt_price_step(tick: int)
    requires
        MIN_TICK <= tick < MAX_TICK,
    ensures
        sqrt_price_at_tick_spec(tick) < sqrt_price_at_tick_spec(tick + 1),
{
    if tick < 0 {
        let n = abs_tick(tick + 1);
        lemma_ratio_decreasing(n);
        assert(abs_tick(tick) == n + 1);
        lemma_ceil_shift_order(ratio_at(n + 1, 20), ratio_at(n, 20));
    } else {
        let n = abs_tick(tick);
        lemma_ratio_decreasing(n);
        let x = ratio_at(n, 20);
        let y = ratio_at(n + 1, 20);
        lemma_inverse_order(x, y, 0x2_0000_0000);
        if tick == 0 {
            lemma_ratio_bounds(0, 20);
            lemma_adjacent_ratios(0, 0);
            lemma_ratio_of_zero(20);
            lemma_ceil_shift_order(two_pow_128(), ratio_of_tick(1));
        } else {
            lemma_ceil_shift_order(ratio_of_tick(tick), ratio_of_tick(tick + 1));
        }
    }
}

/// The magnitude 0 has the ratio 2^128, whatever the number of bits.
proof fn lemma_ratio_of_zero(bits: nat)
    ensures
        ratio_at(0, bits) == two_pow_128(),
    decreases bits,
{
    if bits > 0 {
        lemma_ratio_of_zero((bits - 1) as nat);
        lemma_pow2_pos((bits - 1) as nat);
        vstd::arithmetic::div_mod::lemma_basic_div(0, pow2((bits - 1) as nat) as int);
    }
}

/// The square-root price is strictly increasing in the tick: of two ticks
/// between `MIN_TICK` and `MAX_TICK`, the higher has the higher price.
pub proof fn lemma_sqrt_price_strictly_increasing(low: int, high: int)
    requires
        MIN_TICK <= low < high <= MAX_TICK,
    ensures
        sqrt_price_at_tick_spec(low) < sqrt_price_at_tick_spec(high),
    decreases high - low,
{
    lemma_sqrt_price_step(high - 1);
    if low < high - 1 {
        lemma_sqrt_price_strictly_increasing(low, high - 1);
    }
}

/// The ratio after one more bit, from the bit's value.
proof fn lemma_ratio_step(n: nat, i: nat, bit: nat)
    requires
        i < 20,
        bit == (n / pow2(i)) % 2,
    ensures
        ratio_at(n, i + 1) == (if bit == 1 {
            (ratio_at(n, i) * ratio_factor(i)) / two_pow_128()
        } else {
            ratio_at(n, i)
        }),
{
}

/// The ratio of the magnitude of `MIN_TICK` and `MAX_TICK`.
proof fn lemma_ratio_at_the_ends()
    ensures
        ratio_at(887272, 20) == 0x1_0002_76a2_21a1_7501nat,
{
    vstd::arithmetic::power2::lemma2_to64();
    assert(ratio_at(887272, 0) == two_pow_128());
    lemma_ratio_step(887272, 0, 0);
    assert(ratio_at(887272, 1) == 0x1_0000_0000_0000_0000_0000_0000_0000_0000nat);
    lemma_ratio_step(887272, 1, 0);
    assert(ratio_at(887272, 2) == 0x1_0000_0000_0000_0000_0000_0000_0000_0000nat);
    lemma_ratio_step(887272, 2, 0);
    assert(ratio_at(887272, 3) == 0x1_0000_0000_0000_0000_0000_0000_0000_0000nat);
    lemma_ratio_step(887272, 3, 1);
    assert(ratio_at(887272, 4) == 0xffe5_caca_7e10_e4e6_1c36_24ea_a094_1cd0nat);
    lemma_ratio_step(887272, 4, 0);
    assert(ratio_at(887272, 5) == 0xffe5_caca_7e10_e4e6_1c36_24ea_a094_1cd0nat);
    lemma_ratio_step(887272, 5, 1);
    assert(ratio_at(887272, 6) == 0xff7d_10c6_3a97_7157_da41_40de_b6f3_1a7bnat);
    lemma_ratio_step(887272, 6, 1);
    assert(ratio_at(887272, 7) == 0xfeac_1d40_52f7_7148_18b4_90c1_138e_a058nat);
    lemma_ratio_step(887272, 7, 1);
    assert(ratio_at(887272, 8) == 0xfd0c_3654_da9e_0337_41d1_a9f9_3707_f6f6nat);
    lemma_ratio_step(887272, 8, 1);
    assert(ratio_at(887272, 9) == 0xf9d4_59c5_817d_bafa_9e37_6ae8_4dcf_eb8bnat);
    lemma_ratio_step(887272, 9, 0);
    assert(ratio_at(887272, 10) == 0xf9d4_59c5_817d_bafa_9e37_6ae8_4dcf_eb8bnat);
    lemma_ratio_step(887272, 10, 0);
    assert(ratio_at(887272, 11) == 0xf9d4_59c5_817d_bafa_9e37_6ae8_4dcf_eb8bnat);
    lemma_ratio_step(887272, 11, 1);
    assert(ratio_at(887272, 12) == 0xe183_ac4e_25d5_9499_6624_2a64_e9c8_0e2fnat);
    lemma_ratio_step(887272, 12, 0);
    assert(ratio_at(887272, 13) == 0xe183_ac4e_25d5_9499_6624_2a64_e9c8_0e2fnat);
    lemma_ratio_step(887272, 13, 0);
    assert(ratio_at(887272, 14) == 0xe183_ac4e_25d5_9499_6624_2a64_e9c8_0e2fnat);
    lemma_ratio_step(887272, 14, 0);
    assert(ratio_at(887272, 15) == 0xe183_ac4e_25d5_9499_6624_2a64_e9c8_0e2fnat);
    lemma_ratio_step(887272, 15, 1);
    assert(ratio_at(887272, 16) == 0x2bd1_a4c5_d2a1_181a_ca1e_f15e_64c2_e3cfnat);
    lemma_ratio_step(887272, 16, 1);
    assert(ratio_at(887272, 17) == 0x1a7_85cb_bdc0_5048_3e3b_e581_2760_be73nat);
    lemma_ratio_step(887272, 17, 0);
    assert(ratio_at(887272, 18) == 0x1a7_85cb_bdc0_5048_3e3b_e581_2760_be73nat);
    lemma_ratio_step(887272, 18, 1);
    assert(ratio_at(887272, 19) == 0x38_65a6_455d_07d2_bc87_c595_6d2enat);
    lemma_ratio_step(887272, 19, 1);
    assert(ratio_at(887272, 20) == 0x1_0002_76a2_21a1_7501nat);
}

/// The prices at the ends of the tick range.
pub proof fn lemma_sqrt_price_at_the_ends()
    ensures
        sqrt_price_at_tick_spec(MIN_TICK as int)
            == crate::amm::uniswap_v3::tick_math::min_sqrt_ratio_spec(),
        sqrt_price_at_tick_spec(MAX_TICK as int)
            == crate::amm::uniswap_v3::tick_math::max_sqrt_ratio_spec(),
{
    lemma_ratio_at_the_ends();
    let ratio = 0x1_0002_76a2_21a1_7501int;
    let inverse = 0xfffd_8963_efd1_fc6a_5064_8849_5d95_1d52_6398_8d25_fa78_259aint;
    lemma_fundamental_div_mod_converse(
        two_pow_256() as int - 1,
        ratio,
        inverse,
        0xd28_4d84_9c7e_7865int,
    );
    assert(ratio_of_tick(MAX_TICK as int) == inverse);
    assert(ratio_of_tick(MIN_TICK as int) == ratio);
    lemma_fundamental_div_mod_converse(
        inverse,
        two_pow_32() as int,
        0xfffd_8963_efd1_fc6a_5064_8849_5d95_1d52_6398_8d25int,
        0xfa78_259aint,
    );
    lemma_fundamental_div_mod_converse(
        ratio,
        two_pow_32() as int,
        0x1_0002_76a2int,
        0x21a1_7501int,
    );
}

/// The square-root price of every tick lies between the prices at the
/// ends of the tick range, and fits 160 bits.
pub proof fn lemma_sqrt_price_bounds(tick: int)
    requires
        MIN_TICK <= tick <= MAX_TICK,
    ensures
        crate::amm::uniswap_v3::tick_math::min_sqrt_ratio_spec() <= sqrt_price_at_tick_spec(tick)
            <= crate::amm::uniswap_v3::tick_math::max_sqrt_ratio_spec(),
        sqrt_price_at_tick_spec(tick) < crate::primitives::u256::two_pow_160(),
{
    lemma_sqrt_price_at_the_ends();
    if MIN_TICK < tick {
        lemma_sqrt_price_strictly_increasing(MIN_TICK as int, tick);
    }
    if tick < MAX_TICK {
        lemma_sqrt_price_strictly_increasing(tick, MAX_TICK as int);
    }
}

/// The tick of a price is the greatest tick whose price is at most the
/// price: the ticks with a price at most the price are the ticks up to it.
pub proof fn lemma_tick_of_price_is_greatest(tick: int, sqrt_price: nat, other: int)
    requires
        is_tick_of_price(tick, sqrt_price),
        MIN_TICK <= other <= MAX_TICK,
    ensures
        sqrt_price_at_tick_spec(other) <= sqrt_price <==> other <= tick,
{
    if other < tick {
        lemma_sqrt_price_strictly_increasing(other, tick);
    }
    if other > tick {
        if other > tick + 1 {
            lemma_sqrt_price_strictly_increasing(tick + 1, other);
        }
    }
}

/// A price has at most one tick.
pub proof fn lemma_tick_of_price_unique(first: int, second: int, sqrt_price: nat)
    requires
        is_tick_of_price(first, sqrt_price),
        is_tick_of_price(second, sqrt_price),
    ensures
        first == second,
{
    lemma_tick_of_price_is_greatest(first, sqrt_price, second);
    lemma_tick_of_price_is_greatest(second, sqrt_price, first);
}

/// Every price from the price of `MIN_TICK` up to, but not including, the
/// price of `MAX_TICK` has a tick.
pub proof fn lemma_tick_of_price_exists(sqrt_price: nat, low: int, high: int)
    requires
        MIN_TICK <= low < high <= MAX_TICK,
        sqrt_price_at_tick_spec(low) <= sqrt_price < sqrt_price_at_tick_spec(high),
    ensures
        is_tick_of_price(tick_of_price(sqrt_price), sqrt_price),
        low <= tick_of_price(sqrt_price) < high,
    decreases high - low,
{
    if high == low + 1 {
        assert(is_tick_of_price(low, sqrt_price));
        lemma_tick_of_price_unique(low, tick_of_price(sqrt_price), sqrt_price);
    } else if sqrt_price_at_tick_spec(low + 1) <= sqrt_price {
        lemma_tick_of_price_exists(sqrt_price, low + 1, high);
    } else {
        lemma_tick_of_price_exists(sqrt_price, low, low + 1);
    }
}

/// Round trip: the tick of the price of a tick is that tick, for every
/// tick below `MAX_TICK`; the price of `MAX_TICK` has no tick.
pub proof fn lemma_tick_round_trip(tick: int)
    requires
        MIN_TICK <= tick <= MAX_TICK,
    ensures
        tick < MAX_TICK ==> tick_at_sqrt_price_spec(sqrt_price_at_tick_spec(tick)) == Ok::<
            i32,
            ArithmeticError,
        >(tick as i32),
        tick == MAX_TICK ==> tick_at_sqrt_price_spec(sqrt_price_at_tick_spec(tick)) is Err,
{
    let price = sqrt_price_at_tick_spec(tick);
    lemma_sqrt_price_bounds(tick);
    lemma_sqrt_price_at_the_ends();
    if tick < MAX_TICK {
        lemma_sqrt_price_step(tick);
        lemma_sqrt_price_strictly_increasing(tick, MAX_TICK as int);
        assert(is_tick_of_price(tick, price));
        lemma_tick_of_price_unique(tick, tick_of_price(price), price);
    }
}

/// The price of the tick of a price is at most the price, and the price
/// of the next tick is above it.
pub proof fn lemma_price_of_tick_of_price(sqrt_price: nat)
    requires
        tick_at_sqrt_price_spec(sqrt_price) is Ok,
    ensures
        ({
            let tick = tick_at_sqrt_price_spec(sqrt_price)->Ok_0 as int;
            &&& MIN_TICK <= tick < MAX_TICK
            &&& sqrt_price_at_tick_spec(tick) <= sqrt_price < sqrt_price_at_tick_spec(tick + 1)
        }),
{
    lemma_sqrt_price_at_the_ends();
    lemma_tick_of_price_exists(sqrt_price, MIN_TICK as int, MAX_TICK as int);
}

} // verus!
