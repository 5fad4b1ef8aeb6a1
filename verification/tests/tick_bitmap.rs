use amms::amm::uniswap_v3::bit_math::{least_significant_bit, most_significant_bit};
use amms::amm::uniswap_v3::tick_bitmap::{
    compress, flip_word, is_multiple_of_spacing, position, search_down, search_up, TickBitmap,
};
use amms::errors::AMMError;
use amms::primitives::U256;

fn bitmap_with(ticks: &[i32], spacing: i32) -> TickBitmap {
    let mut bitmap = TickBitmap::new();
    for tick in ticks {
        bitmap.flip_tick(*tick, spacing).unwrap();
    }
    bitmap
}

fn sample() -> TickBitmap {
    bitmap_with(&[-200, -55, -4, 70, 78, 84, 139, 240, 535], 1)
}

#[test]
fn position_splits_a_tick_into_word_and_bit() {
    assert_eq!(position(0), (0, 0));
    assert_eq!(position(1), (0, 1));
    assert_eq!(position(255), (0, 255));
    assert_eq!(position(256), (1, 0));
    assert_eq!(position(-1), (-1, 255));
    assert_eq!(position(-256), (-1, 0));
    assert_eq!(position(-257), (-2, 255));
    assert_eq!(position(887272), (3465, 232));
    assert_eq!(position(-887272), (-3466, 24));
}

#[test]
fn position_wraps_the_word_index_to_16_bits() {
    assert_eq!(position(i32::MAX), (-1, 255));
    assert_eq!(position(i32::MIN), (0, 0));
    assert_eq!(position(8388608), (-32768, 0));
}

#[test]
fn compress_rounds_towards_negative_infinity() {
    assert_eq!(compress(0, 60), 0);
    assert_eq!(compress(59, 60), 0);
    assert_eq!(compress(60, 60), 1);
    assert_eq!(compress(-1, 60), -1);
    assert_eq!(compress(-60, 60), -1);
    assert_eq!(compress(-61, 60), -2);
    assert_eq!(compress(i32::MIN, 1), i32::MIN);
    assert_eq!(compress(i32::MIN, 3), -715827883);
    assert!(is_multiple_of_spacing(-120, 60));
    assert!(!is_multiple_of_spacing(-119, 60));
    assert!(is_multiple_of_spacing(0, 7));
}

#[test]
fn bit_math_finds_the_highest_and_the_lowest_set_bit() {
    assert_eq!(most_significant_bit(U256::zero()), None);
    assert_eq!(least_significant_bit(U256::zero()), None);
    assert_eq!(most_significant_bit(U256::one()), Some(0));
    assert_eq!(most_significant_bit(U256::from_u64(2)), Some(1));
    assert_eq!(most_significant_bit(U256::max_value()), Some(255));
    assert_eq!(least_significant_bit(U256::max_value()), Some(0));
    for bit in 0..256u32 {
        assert_eq!(most_significant_bit(U256::pow2(bit)), Some(bit as u8));
        assert_eq!(least_significant_bit(U256::pow2(bit)), Some(bit as u8));
    }
    let two_bits = U256::pow2(200).wrapping_add(U256::pow2(17));
    assert_eq!(most_significant_bit(two_bits), Some(200));
    assert_eq!(least_significant_bit(two_bits), Some(17));
}

#[test]
fn flip_word_toggles_one_bit() {
    assert_eq!(flip_word(U256::zero(), 0), U256::one());
    assert_eq!(flip_word(U256::one(), 0), U256::zero());
    assert_eq!(flip_word(U256::zero(), 255), U256::pow2(255));
    assert_eq!(flip_word(U256::max_value(), 64), U256::max_value().wrapping_sub(U256::pow2(64)));
    assert_eq!(flip_word(U256::from_u64(0b1010), 2), U256::from_u64(0b1110));
}

#[test]
fn searches_within_a_word() {
    let word = U256::pow2(3).wrapping_add(U256::pow2(130));
    assert_eq!(search_down(word, 255), Some(130));
    assert_eq!(search_down(word, 130), Some(130));
    assert_eq!(search_down(word, 129), Some(3));
    assert_eq!(search_down(word, 2), None);
    assert_eq!(search_up(word, 0), Some(3));
    assert_eq!(search_up(word, 3), Some(3));
    assert_eq!(search_up(word, 4), Some(130));
    assert_eq!(search_up(word, 131), None);
    assert_eq!(search_up(U256::zero(), 0), None);
    assert_eq!(search_down(U256::zero(), 255), None);
}

#[test]
fn flip_tick_sets_the_bit_of_the_tick() {
    let mut bitmap = TickBitmap::new();
    bitmap.flip_tick(-230, 1).unwrap();
    assert_eq!(bitmap.word(-1), U256::pow2(26));
    assert_eq!(bitmap.word(0), U256::zero());
    bitmap.flip_tick(-259, 1).unwrap();
    assert_eq!(bitmap.word(-2), U256::pow2(253));
    let mut spaced = TickBitmap::new();
    spaced.flip_tick(-600, 60).unwrap();
    assert_eq!(spaced.word(-1), U256::pow2(246));
}

#[test]
fn flipping_a_tick_twice_restores_the_bitmap() {
    let mut bitmap = sample();
    let before: Vec<U256> = (-3i16..4).map(|w| bitmap.word(w)).collect();
    bitmap.flip_tick(78, 1).unwrap();
    assert_eq!(bitmap.word(0), before[3].wrapping_sub(U256::pow2(78)));
    bitmap.flip_tick(78, 1).unwrap();
    bitmap.flip_tick(-9000, 1).unwrap();
    bitmap.flip_tick(-9000, 1).unwrap();
    let after: Vec<U256> = (-3i16..4).map(|w| bitmap.word(w)).collect();
    assert_eq!(before, after);
    assert_eq!(bitmap.word(-36), U256::zero());
}

#[test]
fn flip_tick_refuses_a_tick_off_the_spacing_grid() {
    let mut bitmap = TickBitmap::new();
    assert_eq!(bitmap.flip_tick(61, 60), Err(AMMError::TickSpacingError));
    assert_eq!(bitmap.flip_tick(-1, 60), Err(AMMError::TickSpacingError));
    assert_eq!(bitmap.word(0), U256::zero());
    assert_eq!(bitmap.word(-1), U256::zero());
    assert_eq!(bitmap.flip_tick(-60, 60), Ok(()));
}

#[test]
fn next_initialized_tick_above() {
    let bitmap = sample();
    assert_eq!(bitmap.next_initialized_tick_within_one_word(78, 1, false), (84, true));
    assert_eq!(bitmap.next_initialized_tick_within_one_word(-55, 1, false), (-4, true));
    assert_eq!(bitmap.next_initialized_tick_within_one_word(77, 1, false), (78, true));
    assert_eq!(bitmap.next_initialized_tick_within_one_word(-56, 1, false), (-55, true));
    assert_eq!(bitmap.next_initialized_tick_within_one_word(255, 1, false), (511, false));
    assert_eq!(bitmap.next_initialized_tick_within_one_word(-257, 1, false), (-200, true));
    assert_eq!(bitmap.next_initialized_tick_within_one_word(328, 1, false), (511, false));
    assert_eq!(bitmap.next_initialized_tick_within_one_word(508, 1, false), (511, false));
    assert_eq!(bitmap.next_initialized_tick_within_one_word(383, 1, false), (511, false));
    assert_eq!(bitmap.next_initialized_tick_within_one_word(511, 1, false), (535, true));
}

#[test]
fn next_initialized_tick_at_or_below() {
    let bitmap = sample();
    assert_eq!(bitmap.next_initialized_tick_within_one_word(78, 1, true), (78, true));
    assert_eq!(bitmap.next_initialized_tick_within_one_word(79, 1, true), (78, true));
    assert_eq!(bitmap.next_initialized_tick_within_one_word(258, 1, true), (256, false));
    assert_eq!(bitmap.next_initialized_tick_within_one_word(256, 1, true), (256, false));
    assert_eq!(bitmap.next_initialized_tick_within_one_word(72, 1, true), (70, true));
    assert_eq!(bitmap.next_initialized_tick_within_one_word(-257, 1, true), (-512, false));
    assert_eq!(bitmap.next_initialized_tick_within_one_word(1023, 1, true), (768, false));
    assert_eq!(bitmap.next_initialized_tick_within_one_word(900, 1, true), (768, false));
    assert_eq!(bitmap.next_initialized_tick_within_one_word(-1, 1, true), (-4, true));
    assert_eq!(bitmap.next_initialized_tick_within_one_word(-5, 1, true), (-55, true));
}

#[test]
fn next_initialized_tick_with_a_spacing() {
    let bitmap = bitmap_with(&[-600, 600, -1200], 60);
    assert_eq!(bitmap.next_initialized_tick_within_one_word(0, 60, true), (0, false));
    assert_eq!(bitmap.next_initialized_tick_within_one_word(-1, 60, true), (-600, true));
    assert_eq!(bitmap.next_initialized_tick_within_one_word(-601, 60, true), (-1200, true));
    assert_eq!(bitmap.next_initialized_tick_within_one_word(-1201, 60, true), (-15360, false));
    assert_eq!(bitmap.next_initialized_tick_within_one_word(0, 60, false), (600, true));
    assert_eq!(bitmap.next_initialized_tick_within_one_word(599, 60, false), (600, true));
    assert_eq!(bitmap.next_initialized_tick_within_one_word(600, 60, false), (15300, false));
    assert_eq!(bitmap.next_initialized_tick_within_one_word(-700, 60, false), (-600, true));
}

#[test]
fn next_initialized_tick_agrees_with_the_fixed_point_library() {
    let ticks = [-200, -55, -4, 70, 78, 84, 139, 240, 535, -4000, 9000];
    let bitmap = bitmap_with(&ticks, 1);
    let mut outside = std::collections::HashMap::new();
    for tick in ticks {
        uniswap_v3_math::tick_bitmap::flip_tick(&mut outside, tick, 1).unwrap();
    }
    let mut tick = -4500;
    while tick < 9500 {
        for lte in [true, false] {
            let expected =
                uniswap_v3_math::tick_bitmap::next_initialized_tick_within_one_word(
                    &outside, tick, 1, lte,
                )
                .unwrap();
            assert_eq!(bitmap.next_initialized_tick_within_one_word(tick, 1, lte), expected);
        }
        tick += 37;
    }
}
