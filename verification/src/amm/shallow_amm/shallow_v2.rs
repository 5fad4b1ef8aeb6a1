//! The quote state of a constant-product pool: its two reserves.

use vstd::prelude::*;

use crate::amm::uniswap_v2::{amount_out_spec, fee_multiplier_spec, UniswapV2Pool};
use crate::errors::SwapSimulationError;
use crate::primitives::u256::{lemma_from_nat_view, two_pow_256, u256_from_nat};
use crate::primitives::{Address, U256};

verus! {

/// The reserves of a constant-product pool.
#[derive(Clone, Copy, Debug, PartialEq, Eq, Structural)]
pub struct ShallowV2 {
    pub reserve_0: u128,
    pub reserve_1: u128,
}

impl ShallowV2 {
    /// The reserves of `base` as they stand.
    pub fn new(base: &UniswapV2Pool) -> (r: ShallowV2)
        ensures
            r == (ShallowV2 { reserve_0: base.reserve_0, reserve_1: base.reserve_1 }),
    {
        ShallowV2 { reserve_0: base.reserve_0, reserve_1: base.reserve_1 }
    }

    /// The amount out and the reserves after a swap of `amount_in` of
    /// `token_in`: the input joins the reserve of its token and the output,
    /// by the constant-product formula after the fee, leaves the other.
    pub open spec fn quote_spec(self, token_in: Address, amount_in: U256, base: UniswapV2Pool) -> Result<
        (U256, ShallowV2),
        SwapSimulationError,
    > {
        let zero_for_one = base.token_a == token_in;
        let reserve_in: u128 = if zero_for_one {
            self.reserve_0
        } else {
            self.reserve_1
        };
        let reserve_out: u128 = if zero_for_one {
            self.reserve_1
        } else {
            self.reserve_0
        };
        let out = amount_out_spec(base.fee, amount_in@, reserve_in as nat, reserve_out as nat);
        if !(amount_in@ == 0 || reserve_in == 0 || reserve_out == 0 || (base.fee <= 100_000
            && reserve_in * 1000 + amount_in@ * fee_multiplier_spec(base.fee) < two_pow_256())) {
            Err(SwapSimulationError::ReserveOverflow)
        } else if amount_in@ > u128::MAX || reserve_in + amount_in@ > u128::MAX || out
            > reserve_out {
            Err(SwapSimulationError::ReserveOverflow)
        } else if zero_for_one {
            Ok(
                (
                    u256_from_nat(out),
                    ShallowV2 {
                        reserve_0: (reserve_in + amount_in@) as u128,
                        reserve_1: (reserve_out - out) as u128,
                    },
                ),
            )
        } else {
            Ok(
                (
                    u256_from_nat(out),
                    ShallowV2 {
                        reserve_0: (reserve_out - out) as u128,
                        reserve_1: (reserve_in + amount_in@) as u128,
                    },
                ),
            )
        }
    }

    /// Quotes a swap of `amount_in` of `token_in` and returns the amount
    /// out with the reserves after the swap; see [`ShallowV2::quote_spec`].
    pub fn simulate_swap(&self, token_in: Address, amount_in: U256, base: &UniswapV2Pool) -> (r:
        Result<(U256, ShallowV2), SwapSimulationError>)
        ensures
            r == self.quote_spec(token_in, amount_in, *base),
    {
        broadcast use lemma_from_nat_view;

        let zero_for_one: bool = base.token_a == token_in;
        let (reserve_in, reserve_out): (u128, u128) = if zero_for_one {
            (self.reserve_0, self.reserve_1)
        } else {
            (self.reserve_1, self.reserve_0)
        };
        let amount_out: U256 = base.get_amount_out(
            amount_in,
            U256::from_u128(reserve_in),
            U256::from_u128(reserve_out),
        )?;
        let paid: u128 = match amount_in.to_u128() {
            Some(v) => v,
            None => {
                return Err(SwapSimulationError::ReserveOverflow);
            },
        };
        let reserve_in_after: u128 = match reserve_in.checked_add(paid) {
            Some(v) => v,
            None => {
                return Err(SwapSimulationError::ReserveOverflow);
            },
        };
        let received: u128 = match amount_out.to_u128() {
            Some(v) => v,
            None => {
                return Err(SwapSimulationError::ReserveOverflow);
            },
        };
        let reserve_out_after: u128 = match reserve_out.checked_sub(received) {
            Some(v) => v,
            None => {
                return Err(SwapSimulationError::ReserveOverflow);
            },
        };
        if zero_for_one {
            Ok((amount_out, ShallowV2 { reserve_0: reserve_in_after, reserve_1: reserve_out_after }))
        } else {
            Ok((amount_out, ShallowV2 { reserve_0: reserve_out_after, reserve_1: reserve_in_after }))
        }
    }
}

/// The constant-product output on an input after a fee is at most the
/// output without a fee: `out * (reserve_in + in) <= in * reserve_out`.
pub proof fn lemma_amount_out_bound(fee: u32, amount_in: nat, reserve_in: nat, reserve_out: nat)
    requires
        fee <= 100_000,
    ensures
        amount_out_spec(fee, amount_in, reserve_in, reserve_out) * (reserve_in + amount_in)
            <= amount_in * reserve_out,
{
    let out = amount_out_spec(fee, amount_in, reserve_in, reserve_out);
    let m = fee_multiplier_spec(fee);
    if amount_in == 0 || reserve_in == 0 || reserve_out == 0 {
        assert(out * (reserve_in + amount_in) == 0) by (nonlinear_arith)
            requires
                out == 0,
        ;
    } else {
        let with_fee = amount_in * m;
        let top = with_fee * reserve_out;
        let bottom = reserve_in * 1000 + with_fee;
        assert(m <= 1000);
        assert(bottom > 0) by (nonlinear_arith)
            requires
                bottom == reserve_in * 1000 + with_fee,
                reserve_in > 0,
        ;
        vstd::arithmetic::div_mod::lemma_fundamental_div_mod(top as int, bottom as int);
        vstd::arithmetic::div_mod::lemma_mod_bound(top as int, bottom as int);
        assert(out * bottom <= top) by (nonlinear_arith)
            requires
                top == bottom * out + (top as int) % (bottom as int),
                0 <= (top as int) % (bottom as int),
        ;
        if m == 0 {
            assert(top == 0) by (nonlinear_arith)
                requires
                    top == (amount_in * m) * reserve_out,
                    m == 0,
            ;
            assert(out * (reserve_in + amount_in) == 0) by (nonlinear_arith)
                requires
                    out == 0,
            ;
        } else {
            assert(m * (out * (reserve_in + amount_in)) <= m * (amount_in * reserve_out))
                by (nonlinear_arith)
                requires
                    out * (reserve_in * 1000 + amount_in * m) <= (amount_in * m) * reserve_out,
                    m <= 1000,
            ;
            assert(out * (reserve_in + amount_in) <= amount_in * reserve_out)
                by (nonlinear_arith)
                requires
                    m * (out * (reserve_in + amount_in)) <= m * (amount_in * reserve_out),
                    m > 0,
            ;
        }
    }
}

/// A quote of a zero amount yields zero and the reserves as they are.
pub proof fn lemma_zero_quote(
    state: ShallowV2,
    token_in: Address,
    amount_in: U256,
    base: UniswapV2Pool,
)
    requires
        amount_in@ == 0,
    ensures
        state.quote_spec(token_in, amount_in, base) == Ok::<(U256, ShallowV2), SwapSimulationError>(
            (U256 { l0: 0, l1: 0, l2: 0, l3: 0 }, state),
        ),
{
    crate::primitives::u256::lemma_two_pows();
}

/// A quote never lowers the product of the reserves.
pub proof fn lemma_quote_keeps_product(
    state: ShallowV2,
    token_in: Address,
    amount_in: U256,
    base: UniswapV2Pool,
)
    requires
        state.quote_spec(token_in, amount_in, base) is Ok,
    ensures
        ({
            let after = (state.quote_spec(token_in, amount_in, base)->Ok_0).1;
            after.reserve_0 * after.reserve_1 >= state.reserve_0 * state.reserve_1
        }),
{
    let zero_for_one = base.token_a == token_in;
    let reserve_in: nat = if zero_for_one {
        state.reserve_0 as nat
    } else {
        state.reserve_1 as nat
    };
    let reserve_out: nat = if zero_for_one {
        state.reserve_1 as nat
    } else {
        state.reserve_0 as nat
    };
    let paid = amount_in@;
    let out = amount_out_spec(base.fee, paid, reserve_in, reserve_out);
    if paid == 0 || reserve_in == 0 || reserve_out == 0 {
        assert(out == 0);
        assert((reserve_in + paid) * (reserve_out - out) >= reserve_in * reserve_out)
            by (nonlinear_arith)
            requires
                out == 0,
        ;
    } else {
        lemma_amount_out_bound(base.fee, paid, reserve_in, reserve_out);
        assert((reserve_in + paid) * (reserve_out - out) >= reserve_in * reserve_out)
            by (nonlinear_arith)
            requires
                out * (reserve_in + paid) <= paid * reserve_out,
                out <= reserve_out,
        ;
    }
    let after = (state.quote_spec(token_in, amount_in, base)->Ok_0).1;
    if zero_for_one {
        assert(after.reserve_0 == reserve_in + paid);
        assert(after.reserve_1 == reserve_out - out);
    } else {
        assert(after.reserve_1 == reserve_in + paid);
        assert(after.reserve_0 == reserve_out - out);
        assert((reserve_out - out) * (reserve_in + paid) == (reserve_in + paid) * (reserve_out
            - out)) by (nonlinear_arith);
        assert(reserve_out * reserve_in == reserve_in * reserve_out) by (nonlinear_arith);
    }
}

} // verus!
