use amms::amm::uniswap_v3::events::InitializeEvent;
use amms::amm::uniswap_v3::layout::{
    bits_of_i128, i128_of_bits, i56_of_bits, low_24_bits, low_56_bits,
};
use amms::amm::uniswap_v3::oracle::Observation;
use amms::amm::uniswap_v3::position::{Position, PositionKey};
use amms::amm::uniswap_v3::raw::{
    bitmap_slot, keccak256, mapping_slot, offset_within, position_slot, push_be_bytes, push_word,
    tick_slot,
};
use amms::amm::uniswap_v3::tick::Tick;
use amms::amm::uniswap_v3::{Slot0, UniswapV3Pool};
use amms::primitives::{Address, I256, U256};

fn dec(s: &str) -> U256 {
    let parsed = alloy::primitives::U256::from_str_radix(s, 10).unwrap();
    U256::from_limbs(parsed.into_limbs())
}

fn hex(s: &str) -> U256 {
    let parsed = alloy::primitives::U256::from_str_radix(s, 16).unwrap();
    U256::from_limbs(parsed.into_limbs())
}

fn hash_of(bytes: &[u8]) -> U256 {
    let hash = alloy::primitives::keccak256(bytes);
    U256::from_limbs(alloy::primitives::U256::from_be_bytes(hash.0).into_limbs())
}

fn word(x: U256) -> [u8; 32] {
    alloy::primitives::U256::from_limbs(x.into_limbs()).to_be_bytes::<32>()
}

fn owner() -> Address {
    Address { high: 0x01020304, low: 0x05060708090a0b0c0d0e0f1011121314 }
}

#[test]
fn two_complement_bits() {
    assert_eq!(low_56_bits(-1), (1 << 56) - 1);
    assert_eq!(low_56_bits(5), 5);
    assert_eq!(low_56_bits(i64::MIN), 0);
    assert_eq!(low_56_bits(1 << 56), 0);
    assert_eq!(low_24_bits(-600), (1 << 24) - 600);
    assert_eq!(low_24_bits(887272), 887272);
    assert_eq!(low_24_bits(i32::MIN), 0);
    assert_eq!(bits_of_i128(-1), u128::MAX);
    assert_eq!(bits_of_i128(i128::MIN), 1 << 127);
    assert_eq!(bits_of_i128(7), 7);
    assert_eq!(i128_of_bits(u128::MAX), -1);
    assert_eq!(i128_of_bits(1 << 127), i128::MIN);
    assert_eq!(i128_of_bits((1 << 127) - 1), i128::MAX);
    assert_eq!(i56_of_bits((1 << 56) - 1), -1);
    assert_eq!(i56_of_bits(1 << 55), -(1 << 55));
    assert_eq!(i56_of_bits((1 << 55) - 1), (1 << 55) - 1);
}

#[test]
fn bytes_most_significant_first() {
    let mut out = vec![0xffu8];
    push_be_bytes(&mut out, 0x0102_0304, 3);
    assert_eq!(out, vec![0xff, 0x02, 0x03, 0x04]);
    push_be_bytes(&mut out, 7, 0);
    assert_eq!(out.len(), 4);
    let mut wide = vec![];
    push_be_bytes(&mut wide, u128::MAX - 1, 16);
    assert_eq!(wide, (u128::MAX - 1).to_be_bytes().to_vec());
    let mut bytes = vec![];
    let x = U256::from_limbs([0x1112131415161718, 0x2122232425262728, 0x3132333435363738, 0x4142434445464748]);
    push_word(&mut bytes, x);
    assert_eq!(bytes, word(x).to_vec());
    assert_eq!(bytes[0], 0x41);
    assert_eq!(bytes[31], 0x18);
}

#[test]
fn keccak_of_known_inputs() {
    assert_eq!(
        keccak256(&vec![]),
        hex("c5d2460186f7233c927e7db2dcc703c0e500b653ca82273b7bfad8045d85a470")
    );
    assert_eq!(
        keccak256(&vec![0u8; 64]),
        hex("ad3228b676f7d3cd4284a5443f17f1962b36e491b30a40b2405849e597ba5fb5")
    );
    assert_eq!(
        mapping_slot(U256::zero(), 0),
        hex("ad3228b676f7d3cd4284a5443f17f1962b36e491b30a40b2405849e597ba5fb5")
    );
    assert_eq!(
        mapping_slot(U256::zero(), 1),
        hex("a6eef7e35abe7026729641147f7915573c7e97b47efa546f5f6e3230263bcb49")
    );
}

#[test]
fn slots_of_ticks_words_and_positions() {
    let mut input = word(I256::from_i128(-600).into_raw()).to_vec();
    input.extend_from_slice(&word(U256::from_u64(5)));
    assert_eq!(tick_slot(-600), hash_of(&input));
    assert_eq!(input[0], 0xff);

    let mut input = word(I256::from_i128(-3).into_raw()).to_vec();
    input.extend_from_slice(&word(U256::from_u64(6)));
    assert_eq!(bitmap_slot(-3), hash_of(&input));
    let mut input = word(U256::from_u64(3)).to_vec();
    input.extend_from_slice(&word(U256::from_u64(6)));
    assert_eq!(bitmap_slot(3), hash_of(&input));

    let key = PositionKey { owner: owner(), tick_lower: -600, tick_upper: 600 };
    let packed: Vec<u8> = vec![
        1, 2, 3, 4, 5, 6, 7, 8, 9, 10, 11, 12, 13, 14, 15, 16, 17, 18, 19, 20, 0xff, 0xfd, 0xa8,
        0x00, 0x02, 0x58,
    ];
    let mut input = word(hash_of(&packed)).to_vec();
    input.extend_from_slice(&word(U256::from_u64(7)));
    assert_eq!(position_slot(&key), hash_of(&input));
}

#[test]
fn offsets_count_around_the_end() {
    assert_eq!(offset_within(U256::from_u64(10), U256::from_u64(12), 4), Some(2));
    assert_eq!(offset_within(U256::from_u64(10), U256::from_u64(14), 4), None);
    assert_eq!(offset_within(U256::from_u64(10), U256::from_u64(9), 4), None);
    assert_eq!(offset_within(U256::max_value(), U256::from_u64(1), 4), Some(2));
    assert_eq!(offset_within(U256::from_u64(10), U256::from_u64(10), 1), Some(0));
    assert_eq!(offset_within(U256::from_u64(10), U256::from_u64(10), 0), None);
}

#[test]
fn the_first_slot_packs_seven_values() {
    let slot0 = Slot0 {
        sqrt_price_x96: U256::pow2(96),
        tick: -199,
        observation_index: 1,
        observation_cardinality: 5,
        observation_cardinality_next: 7,
        fee_protocol: 0x54,
        unlocked: true,
    };
    assert_eq!(
        slot0.into_word(),
        dec("2346594495102868106888985298860706867774491510572556097311028953288278016")
    );
    let full = Slot0 {
        sqrt_price_x96: U256::pow2(200).wrapping_add(U256::from_u64(5)),
        tick: 887272,
        observation_index: 65535,
        observation_cardinality: 65535,
        observation_cardinality_next: 65535,
        fee_protocol: 255,
        unlocked: true,
    };
    assert_eq!(
        full.into_word(),
        dec("3533694129556768635943415828389480191961835208240132845759545026919006213")
    );
}

#[test]
fn an_observation_packs_four_values() {
    let observation = Observation {
        block_timestamp: 1030,
        tick_cumulative: -13,
        seconds_per_liquidity_cumulative_x128: dec("12345678901234567890123456789"),
        initialized: true,
    };
    assert_eq!(
        observation.into_word(),
        dec("452312848583266388377144962746186892892010432274660491353816170177702659078")
    );
    assert_eq!(Observation::new().into_word(), U256::zero());
}

#[test]
fn a_tick_packs_into_four_words_and_back() {
    let tick = Tick {
        liquidity_gross: 1_500_000_000_000_000_000,
        liquidity_net: -500_000_000_000_000_000,
        fee_growth_outside_0_x128: U256::from_u64(11),
        fee_growth_outside_1_x128: U256::max_value(),
        tick_cumulative_outside: -77,
        seconds_per_liquidity_outside_x128: U256::pow2(159).wrapping_add(U256::from_u64(3)),
        seconds_outside: 4_000_000_000,
        initialized: true,
    };
    let words = tick.encode_storage();
    assert_eq!(
        words[0],
        dec("115792089237316195423400843825227438621538297361924679933731084007913129639936")
    );
    assert_eq!(words[1], U256::from_u64(11));
    assert_eq!(words[2], U256::max_value());
    assert_eq!(
        words[3],
        dec("873562015310151280999274864273827883169251475361802445996937883678217863091")
    );
    assert_eq!(Tick::decode_storage(&words), tick);
    assert_eq!(Tick::decode_storage(&Tick::new().encode_storage()), Tick::new());
    // any top byte that is not zero reads as initialized
    let mut odd = Tick::new().encode_storage();
    odd[3] = U256::pow2(249);
    assert!(Tick::decode_storage(&odd).initialized);
    // an accumulator beyond its width is cut to its width
    let wide = Tick {
        seconds_per_liquidity_outside_x128: U256::pow2(160).wrapping_add(U256::one()),
        tick_cumulative_outside: 1 << 56,
        ..Tick::new()
    };
    assert_eq!(wide.encode_storage()[3], U256::pow2(56));
}

#[test]
fn a_position_packs_into_four_words_and_back() {
    let position = Position {
        liquidity: u128::MAX,
        fee_growth_inside_0_last_x128: U256::from_u64(1),
        fee_growth_inside_1_last_x128: U256::pow2(255),
        tokens_owed0: 9,
        tokens_owed1: 3,
    };
    let words = position.encode_storage();
    assert_eq!(words[0], U256::from_u128(u128::MAX));
    assert_eq!(words[1], U256::from_u64(1));
    assert_eq!(words[2], U256::pow2(255));
    assert_eq!(words[3], dec("1020847100762815390390123822295304634377"));
    assert_eq!(Position::decode_storage(&words), position);
    // the high half of the first word is not part of the position
    let mut odd = words;
    odd[0] = U256::max_value();
    assert_eq!(Position::decode_storage(&odd), position);
}

#[test]
fn the_pool_reads_by_slot() {
    let mut pool = UniswapV3Pool::new(
        Address { high: 9, low: 9 },
        Address { high: 7, low: 1 },
        18,
        Address { high: 7, low: 2 },
        18,
        3000,
        0,
        U256::pow2(96),
        0,
        60,
    );
    pool.sync_from_initialize_log(&InitializeEvent { sqrt_price_x96: U256::pow2(96), tick: 0 }, 1000)
        .unwrap();
    pool.mint(owner(), -600, 600, 1_000_000_000_000_000_000, 1010).unwrap();
    pool.swap(
        owner(),
        true,
        I256::from_i128(10_000_000_000_000_000),
        dec("4295128740"),
        1020,
        None,
    )
    .unwrap();
    assert_eq!(pool.read_raw(U256::zero()), pool.slot0.into_word());
    assert_eq!(pool.read_raw(U256::from_u64(1)), dec("10208471007628153903901238222953046"));
    assert_eq!(pool.read_raw(U256::from_u64(2)), U256::zero());
    assert_eq!(pool.read_raw(U256::from_u64(3)), U256::zero());
    assert_eq!(pool.read_raw(U256::from_u64(4)), U256::from_u128(1_000_000_000_000_000_000));

    let lower = pool.ticks.get(-600).encode_storage();
    let base = tick_slot(-600);
    for offset in 0..4u64 {
        assert_eq!(
            pool.read_raw(base.wrapping_add(U256::from_u64(offset))),
            lower[offset as usize]
        );
    }
    assert_eq!(pool.read_raw(base.wrapping_add(U256::from_u64(4))), U256::zero());
    assert_eq!(pool.read_raw(base.wrapping_sub(U256::one())), U256::zero());
    assert_eq!(pool.read_raw(tick_slot(600)), pool.ticks.get(600).encode_storage()[0]);
    assert_eq!(pool.read_raw(tick_slot(0)), U256::zero());

    let key = PositionKey { owner: owner(), tick_lower: -600, tick_upper: 600 };
    let position = pool.positions.get(key).encode_storage();
    assert_eq!(pool.read_raw(position_slot(&key)), position[0]);
    assert_eq!(position[0], U256::from_u128(1_000_000_000_000_000_000));
    assert_eq!(
        pool.read_raw(position_slot(&key).wrapping_add(U256::from_u64(3))),
        position[3]
    );

    assert_eq!(pool.read_raw(bitmap_slot(-1)), U256::pow2(246));
    assert_eq!(pool.read_raw(bitmap_slot(0)), U256::pow2(10));
    assert_eq!(pool.read_raw(bitmap_slot(1)), U256::zero());

    assert_eq!(pool.read_raw(U256::from_u64(8)), pool.observations.get(0).into_word());
    assert_eq!(pool.observations.get(0).block_timestamp, 1020);
    assert_eq!(pool.read_raw(U256::from_u64(9)), U256::zero());
    assert_eq!(pool.read_raw(U256::from_u64(8 + 65534)), U256::zero());
    assert_eq!(pool.ticks.read_raw(U256::from_u64(8)), None);
    assert_eq!(pool.positions.read_raw(tick_slot(600)), None);
    assert_eq!(pool.tick_bitmap.read_raw(tick_slot(600)), None);
    assert_eq!(pool.observations.read_raw(U256::from_u64(7)), None);
    assert_eq!(pool.observations.read_raw(U256::from_u64(8 + 65535)), None);
}
