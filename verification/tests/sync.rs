use amms::amm::uniswap_v2::UniswapV2Pool;
use amms::amm::uniswap_v3::UniswapV3Pool;
use amms::amm::AMM;
use amms::primitives::{Address, U256};
use amms::sync::{amms_are_congruent, remove_empty_amms};

fn token(n: u128) -> Address {
    Address { high: 0, low: n }
}

fn v2(token_a: u128, token_b: u128, reserve: u128) -> AMM {
    AMM::UniswapV2Pool(UniswapV2Pool {
        address: token(99),
        token_a: token(token_a),
        token_a_decimals: 18,
        token_b: token(token_b),
        token_b_decimals: 18,
        reserve_0: reserve,
        reserve_1: reserve,
        fee: 300,
    })
}

fn v3(token_a: u128, token_b: u128, liquidity: u128) -> AMM {
    AMM::UniswapV3Pool(UniswapV3Pool::new(
        token(98),
        token(token_a),
        18,
        token(token_b),
        18,
        500,
        liquidity,
        U256::pow2(96),
        0,
        10,
    ))
}

fn mark(amm: &AMM) -> (bool, u128) {
    match amm {
        AMM::UniswapV2Pool(pool) => (true, pool.reserve_0),
        AMM::UniswapV3Pool(pool) => (false, pool.liquidity),
    }
}

#[test]
fn pools_of_one_kind_are_congruent() {
    assert!(amms_are_congruent(&[v2(1, 2, 0)]));
    assert!(amms_are_congruent(&[v2(1, 2, 0), v2(3, 4, 0), v2(0, 0, 0)]));
    assert!(amms_are_congruent(&[v3(1, 2, 0), v3(3, 4, 0)]));
    assert!(!amms_are_congruent(&[v2(1, 2, 0), v3(1, 2, 0)]));
    assert!(!amms_are_congruent(&[v3(1, 2, 0), v3(1, 2, 0), v2(1, 2, 0)]));
    assert!(!amms_are_congruent(&[v3(1, 2, 0), v2(1, 2, 0), v3(1, 2, 0)]));
}

#[test]
fn pools_without_tokens_are_removed_in_order() {
    let amms = vec![
        v2(1, 2, 10),
        v2(0, 2, 11),
        v3(1, 2, 12),
        v3(1, 0, 13),
        v2(0, 0, 14),
        v3(3, 4, 15),
        v2(5, 6, 16),
    ];
    let cleaned = remove_empty_amms(amms);
    let marks: Vec<(bool, u128)> = cleaned.iter().map(mark).collect();
    assert_eq!(marks, vec![(true, 10), (false, 12), (false, 15), (true, 16)]);
    assert!(remove_empty_amms(vec![]).is_empty());
    assert!(remove_empty_amms(vec![v2(0, 1, 1), v3(0, 0, 2)]).is_empty());
    assert_eq!(remove_empty_amms(vec![v3(1, 1, 3)]).len(), 1);
    assert!(v2(1, 2, 0).data_is_populated());
    assert!(!v3(0, 2, 0).data_is_populated());
}
