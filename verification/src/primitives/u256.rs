//! Unsigned 256-bit integers held as four 64-bit limbs.

use vstd::arithmetic::power2::{lemma2_to64, lemma2_to64_rest, lemma_pow2_adds, pow2};
use vstd::prelude::*;

verus! {

/// 2^32.
pub open spec fn two_pow_32() -> nat {
    0x1_0000_0000nat
}

/// 2^64.
pub open spec fn two_pow_64() -> nat {
    0x1_0000_0000_0000_0000nat
}

/// 2^96.
pub open spec fn two_pow_96() -> nat {
    0x1_0000_0000_0000_0000_0000_0000nat
}

/// 2^128.
pub open spec fn two_pow_128() -> nat {
    0x1_0000_0000_0000_0000_0000_0000_0000_0000nat
}

/// 2^160.
pub open spec fn two_pow_160() -> nat {
    0x1_0000_0000_0000_0000_0000_0000_0000_0000_0000_0000nat
}

/// 2^192.
pub open spec fn two_pow_192() -> nat {
    0x1_0000_0000_0000_0000_0000_0000_0000_0000_0000_0000_0000_0000nat
}

/// 2^255.
pub open spec fn two_pow_255() -> nat {
    0x8000_0000_0000_0000_0000_0000_0000_0000_0000_0000_0000_0000_0000_0000_0000_0000nat
}

/// 2^256.
pub open spec fn two_pow_256() -> nat {
    0x1_0000_0000_0000_0000_0000_0000_0000_0000_0000_0000_0000_0000_0000_0000_0000_0000nat
}

/// An unsigned 256-bit integer; `l0` is the least significant limb.
#[derive(Clone, Copy, Debug, PartialEq, Eq, Structural, Hash)]
pub struct U256 {
    pub l0: u64,
    pub l1: u64,
    pub l2: u64,
    pub l3: u64,
}

impl View for U256 {
    type V = nat;

    /// The number that the four limbs stand for.
    open spec fn view(&self) -> nat {
        (self.l0 + self.l1 * two_pow_64() + self.l2 * two_pow_128() + self.l3 * two_pow_192()) as nat
    }
}

/// The named powers of two are the powers of two.
pub proof fn lemma_two_pows()
    ensures
        pow2(32) == two_pow_32(),
        pow2(64) == two_pow_64(),
        pow2(96) == two_pow_96(),
        pow2(128) == two_pow_128(),
        pow2(160) == two_pow_160(),
        pow2(192) == two_pow_192(),
        pow2(255) == two_pow_255(),
        pow2(256) == two_pow_256(),
{
    lemma2_to64();
    lemma2_to64_rest();
    lemma_pow2_adds(32, 64);
    lemma_pow2_adds(64, 64);
    lemma_pow2_adds(64, 96);
    lemma_pow2_adds(64, 128);
    lemma_pow2_adds(63, 192);
    lemma_pow2_adds(64, 192);
}

/// A number has one quotient and one remainder by `d`.
pub proof fn lemma_digits_unique(low_a: int, high_a: int, low_b: int, high_b: int, d: int)
    requires
        d > 0,
        0 <= low_a < d,
        0 <= low_b < d,
        low_a + high_a * d == low_b + high_b * d,
    ensures
        low_a == low_b,
        high_a == high_b,
{
    let x = low_a + high_a * d;
    vstd::arithmetic::div_mod::lemma_fundamental_div_mod_converse(x, d, high_a, low_a);
    vstd::arithmetic::div_mod::lemma_fundamental_div_mod_converse(x, d, high_b, low_b);
}

/// Two values with the same number have the same limbs.
pub proof fn lemma_view_injective(a: U256, b: U256)
    requires
        a@ == b@,
    ensures
        a == b,
{
    let d = two_pow_64() as int;
    let a1 = a.l1 + a.l2 * d + a.l3 * (d * d);
    let b1 = b.l1 + b.l2 * d + b.l3 * (d * d);
    assert(d * d == two_pow_128());
    assert(d * d * d == two_pow_192());
    assert(a@ == a.l0 + a1 * d) by (nonlinear_arith)
        requires
            a@ == a.l0 + a.l1 * d + a.l2 * (d * d) + a.l3 * (d * d * d),
            a1 == a.l1 + a.l2 * d + a.l3 * (d * d),
    ;
    assert(b@ == b.l0 + b1 * d) by (nonlinear_arith)
        requires
            b@ == b.l0 + b.l1 * d + b.l2 * (d * d) + b.l3 * (d * d * d),
            b1 == b.l1 + b.l2 * d + b.l3 * (d * d),
    ;
    lemma_digits_unique(a.l0 as int, a1, b.l0 as int, b1, d);
    let a2 = a.l2 + a.l3 * d;
    let b2 = b.l2 + b.l3 * d;
    assert(a1 == a.l1 + a2 * d) by (nonlinear_arith)
        requires
            a1 == a.l1 + a.l2 * d + a.l3 * (d * d),
            a2 == a.l2 + a.l3 * d,
    ;
    assert(b1 == b.l1 + b2 * d) by (nonlinear_arith)
        requires
            b1 == b.l1 + b.l2 * d + b.l3 * (d * d),
            b2 == b.l2 + b.l3 * d,
    ;
    lemma_digits_unique(a.l1 as int, a2, b.l1 as int, b2, d);
    lemma_digits_unique(a.l2 as int, a.l3 as int, b.l2 as int, b.l3 as int, d);
}

/// The number splits into its high and low 128 bits.
pub proof fn lemma_halves(a: U256)
    ensures
        a@ == (a.l0 + a.l1 * two_pow_64()) + (a.l2 + a.l3 * two_pow_64()) * two_pow_128(),
        a@ % two_pow_128() == a.l0 + a.l1 * two_pow_64(),
        a@ / two_pow_128() == a.l2 + a.l3 * two_pow_64(),
        a@ < two_pow_256(),
{
    let low = a.l0 + a.l1 * two_pow_64();
    let high = a.l2 + a.l3 * two_pow_64();
    assert(two_pow_64() * two_pow_128() == two_pow_192());
    assert(a.l3 * two_pow_64() * two_pow_128() == a.l3 * two_pow_192()) by (nonlinear_arith)
        requires
            two_pow_64() * two_pow_128() == two_pow_192(),
    ;
    assert(a@ == low + high * two_pow_128()) by (nonlinear_arith)
        requires
            a@ == a.l0 + a.l1 * two_pow_64() + a.l2 * two_pow_128() + a.l3 * two_pow_192(),
            low == a.l0 + a.l1 * two_pow_64(),
            high == a.l2 + a.l3 * two_pow_64(),
            a.l3 * two_pow_64() * two_pow_128() == a.l3 * two_pow_192(),
    ;
    assert(0 <= low < two_pow_128());
    vstd::arithmetic::div_mod::lemma_fundamental_div_mod_converse(
        a@ as int,
        two_pow_128() as int,
        high,
        low,
    );
}

/// The value with the number `n`, for `n` below 2^256.
pub open spec fn u256_from_nat(n: nat) -> U256 {
    U256 {
        l0: (n % two_pow_64()) as u64,
        l1: ((n / two_pow_64()) % two_pow_64()) as u64,
        l2: ((n / two_pow_128()) % two_pow_64()) as u64,
        l3: ((n / two_pow_192()) % two_pow_64()) as u64,
    }
}

/// The value built from a number below 2^256 has that number.
pub proof fn lemma_from_nat(n: nat)
    requires
        n < two_pow_256(),
    ensures
        u256_from_nat(n)@ == n,
{
    let d = two_pow_64() as int;
    let a1 = (n as int) / d;
    let a2 = a1 / d;
    let a3 = a2 / d;
    vstd::arithmetic::div_mod::lemma_fundamental_div_mod(n as int, d);
    vstd::arithmetic::div_mod::lemma_fundamental_div_mod(a1, d);
    vstd::arithmetic::div_mod::lemma_fundamental_div_mod(a2, d);
    vstd::arithmetic::div_mod::lemma_div_denominator(n as int, d, d);
    assert(d * d == two_pow_128());
    vstd::arithmetic::div_mod::lemma_div_denominator(n as int, d * d, d);
    assert(d * d * d == two_pow_192());
    assert(a2 == (n as int) / (two_pow_128() as int));
    assert(a3 == (n as int) / (two_pow_192() as int));
    vstd::arithmetic::div_mod::lemma_div_is_ordered(
        n as int,
        two_pow_256() as int - 1,
        two_pow_192() as int,
    );
    assert((two_pow_256() as int - 1) / (two_pow_192() as int) == d - 1) by {
        vstd::arithmetic::div_mod::lemma_fundamental_div_mod_converse(
            two_pow_256() as int - 1,
            two_pow_192() as int,
            d - 1,
            two_pow_192() as int - 1,
        );
    }
    vstd::arithmetic::div_mod::lemma_div_pos_is_pos(n as int, two_pow_192() as int);
    vstd::arithmetic::div_mod::lemma_small_mod(a3 as nat, d as nat);
    let l0 = (n as int) % d;
    let l1 = a1 % d;
    let l2 = a2 % d;
    assert(n == l0 + l1 * d + l2 * (d * d) + a3 * (d * d * d)) by (nonlinear_arith)
        requires
            n == d * a1 + l0,
            a1 == d * a2 + l1,
            a2 == d * a3 + l2,
    ;
}

/// A value is the value built from its number.
pub broadcast proof fn lemma_from_nat_view(a: U256)
    ensures
        #[trigger] u256_from_nat(a@) == a,
{
    lemma_halves(a);
    lemma_from_nat(a@);
    lemma_view_injective(u256_from_nat(a@), a);
}

/// Splits a 128-bit value into its low and high 64 bits.
fn split_u128(x: u128) -> (r: (u64, u64))
    ensures
        x == r.0 + r.1 * two_pow_64(),
{
    let low: u128 = x % 0x1_0000_0000_0000_0000u128;
    let high: u128 = x / 0x1_0000_0000_0000_0000u128;
    (low as u64, high as u64)
}

/// Joins two 64-bit limbs into a 128-bit value.
fn join_u64(low: u64, high: u64) -> (r: u128)
    ensures
        r == low + high * two_pow_64(),
{
    (high as u128) * 0x1_0000_0000_0000_0000u128 + (low as u128)
}

/// Adds with carry in and out.
fn add_carry(a: u128, b: u128, carry: bool) -> (r: (u128, bool))
    ensures
        r.0 + (if r.1 { two_pow_128() } else { 0 }) == a + b + (if carry { 1nat } else { 0 }),
{
    let (s, c1): (u128, bool) = if a > u128::MAX - b {
        (a - (u128::MAX - b) - 1, true)
    } else {
        (a + b, false)
    };
    if carry {
        if s == u128::MAX {
            (0, true)
        } else {
            (s + 1, c1)
        }
    } else {
        (s, c1)
    }
}

/// Subtracts with borrow in and out.
fn sub_borrow(a: u128, b: u128, borrow: bool) -> (r: (u128, bool))
    ensures
        r.0 - (if r.1 { two_pow_128() as int } else { 0 }) == a - b - (if borrow { 1int } else { 0 }),
{
    let (d, b1): (u128, bool) = if a < b {
        (u128::MAX - (b - a) + 1, true)
    } else {
        (a - b, false)
    };
    if borrow {
        if d == 0 {
            (u128::MAX, true)
        } else {
            (d - 1, b1)
        }
    } else {
        (d, b1)
    }
}

impl U256 {
    /// The value 0.
    pub fn zero() -> (r: U256)
        ensures
            r@ == 0,
    {
        U256 { l0: 0, l1: 0, l2: 0, l3: 0 }
    }

    /// The value 1.
    pub fn one() -> (r: U256)
        ensures
            r@ == 1,
    {
        U256 { l0: 1, l1: 0, l2: 0, l3: 0 }
    }

    /// The largest value, 2^256 - 1.
    pub fn max_value() -> (r: U256)
        ensures
            r@ == two_pow_256() - 1,
    {
        U256 { l0: u64::MAX, l1: u64::MAX, l2: u64::MAX, l3: u64::MAX }
    }

    /// Builds a value from limbs, least significant first.
    pub fn from_limbs(limbs: [u64; 4]) -> (r: U256)
        ensures
            r == (U256 { l0: limbs[0], l1: limbs[1], l2: limbs[2], l3: limbs[3] }),
    {
        U256 { l0: limbs[0], l1: limbs[1], l2: limbs[2], l3: limbs[3] }
    }

    /// The limbs, least significant first.
    pub fn into_limbs(self) -> (r: [u64; 4])
        ensures
            r[0] == self.l0,
            r[1] == self.l1,
            r[2] == self.l2,
            r[3] == self.l3,
    {
        [self.l0, self.l1, self.l2, self.l3]
    }

    /// Builds a value from its high and low 128 bits.
    pub fn from_halves(high: u128, low: u128) -> (r: U256)
        ensures
            r@ == high * two_pow_128() + low,
    {
        let (l0, l1): (u64, u64) = split_u128(low);
        let (l2, l3): (u64, u64) = split_u128(high);
        U256 { l0, l1, l2, l3 }
    }

    /// The low 128 bits.
    pub fn low_u128(self) -> (r: u128)
        ensures
            r == self@ % two_pow_128(),
            r == self.l0 + self.l1 * two_pow_64(),
    {
        proof {
            lemma_halves(self);
        }
        join_u64(self.l0, self.l1)
    }

    /// The high 128 bits.
    pub fn high_u128(self) -> (r: u128)
        ensures
            r == self@ / two_pow_128(),
            r == self.l2 + self.l3 * two_pow_64(),
    {
        proof {
            lemma_halves(self);
        }
        join_u64(self.l2, self.l3)
    }

    /// Widens a 128-bit value.
    pub fn from_u128(x: u128) -> (r: U256)
        ensures
            r@ == x,
    {
        U256::from_halves(0, x)
    }

    /// Widens a 64-bit value.
    pub fn from_u64(x: u64) -> (r: U256)
        ensures
            r@ == x,
    {
        U256 { l0: x, l1: 0, l2: 0, l3: 0 }
    }

    /// The value as 128 bits, when it fits.
    pub fn to_u128(self) -> (r: Option<u128>)
        ensures
            r == (if self@ < two_pow_128() {
                Some(self@ as u128)
            } else {
                None::<u128>
            }),
    {
        if self.l2 == 0 && self.l3 == 0 {
            Some(self.low_u128())
        } else {
            None
        }
    }

    /// Whether the value is 0.
    pub fn is_zero(self) -> (r: bool)
        ensures
            r == (self@ == 0),
    {
        self.l0 == 0 && self.l1 == 0 && self.l2 == 0 && self.l3 == 0
    }

    /// Whether the two values are the same number.
    pub fn equals(self, other: U256) -> (r: bool)
        ensures
            r == (self@ == other@),
            r == (self == other),
    {
        proof {
            if self@ == other@ {
                lemma_view_injective(self, other);
            }
        }
        self.l0 == other.l0 && self.l1 == other.l1 && self.l2 == other.l2 && self.l3 == other.l3
    }

    /// Whether `self` is strictly below `other`.
    pub fn lt(self, other: U256) -> (r: bool)
        ensures
            r == (self@ < other@),
    {
        let a_high: u128 = self.high_u128();
        let b_high: u128 = other.high_u128();
        if a_high != b_high {
            a_high < b_high
        } else {
            self.low_u128() < other.low_u128()
        }
    }

    /// Whether `self` is at most `other`.
    pub fn le(self, other: U256) -> (r: bool)
        ensures
            r == (self@ <= other@),
    {
        !other.lt(self)
    }

    /// Whether `self` is strictly above `other`.
    pub fn gt(self, other: U256) -> (r: bool)
        ensures
            r == (self@ > other@),
    {
        other.lt(self)
    }

    /// Whether `self` is at least `other`.
    pub fn ge(self, other: U256) -> (r: bool)
        ensures
            r == (self@ >= other@),
    {
        !self.lt(other)
    }

    /// The sum modulo 2^256, and whether it wrapped.
    pub fn overflowing_add(self, rhs: U256) -> (r: (U256, bool))
        ensures
            r.0@ == (self@ + rhs@) % two_pow_256(),
            r.1 == (self@ + rhs@ >= two_pow_256()),
            !r.1 ==> r.0@ == self@ + rhs@,
            r.1 ==> r.0@ == self@ + rhs@ - two_pow_256(),
    {
        let (low, c1): (u128, bool) = add_carry(self.low_u128(), rhs.low_u128(), false);
        let (high, c2): (u128, bool) = add_carry(self.high_u128(), rhs.high_u128(), c1);
        U256::from_halves(high, low).with_carry(c2)
    }

    /// Pairs a value with a flag.
    fn with_carry(self, flag: bool) -> (r: (U256, bool))
        ensures
            r.0 == self,
            r.1 == flag,
    {
        (self, flag)
    }

    /// The sum modulo 2^256.
    pub fn wrapping_add(self, rhs: U256) -> (r: U256)
        ensures
            r@ == (self@ + rhs@) % two_pow_256(),
    {
        self.overflowing_add(rhs).0
    }

    /// The sum, when it fits.
    pub fn checked_add(self, rhs: U256) -> (r: Option<U256>)
        ensures
            r is Some <==> self@ + rhs@ < two_pow_256(),
            r matches Some(s) ==> s@ == self@ + rhs@,
    {
        let (s, carry): (U256, bool) = self.overflowing_add(rhs);
        if carry {
            None
        } else {
            Some(s)
        }
    }

    /// The difference modulo 2^256, and whether it wrapped.
    pub fn overflowing_sub(self, rhs: U256) -> (r: (U256, bool))
        ensures
            r.0@ == (self@ - rhs@) % (two_pow_256() as int),
            r.1 == (self@ < rhs@),
            !r.1 ==> r.0@ == self@ - rhs@,
            r.1 ==> r.0@ == self@ - rhs@ + two_pow_256(),
    {
        let (low, b1): (u128, bool) = sub_borrow(self.low_u128(), rhs.low_u128(), false);
        let (high, b2): (u128, bool) = sub_borrow(self.high_u128(), rhs.high_u128(), b1);
        U256::from_halves(high, low).with_carry(b2)
    }

    /// The difference modulo 2^256.
    pub fn wrapping_sub(self, rhs: U256) -> (r: U256)
        ensures
            r@ == (self@ - rhs@) % (two_pow_256() as int),
    {
        self.overflowing_sub(rhs).0
    }

    /// The difference, when it is not negative.
    pub fn checked_sub(self, rhs: U256) -> (r: Option<U256>)
        ensures
            r is Some <==> self@ >= rhs@,
            r matches Some(d) ==> d@ == self@ - rhs@,
    {
        let (d, borrow): (U256, bool) = self.overflowing_sub(rhs);
        if borrow {
            None
        } else {
            Some(d)
        }
    }

    /// The power of two with exponent `n`.
    pub fn pow2(n: u32) -> (r: U256)
        requires
            n < 256,
        ensures
            r@ == pow2(n as nat),
    {
        let shift: u32 = n % 64;
        let bit: u64 = 1u64 << shift;
        proof {
            lemma_two_pows();
            lemma2_to64();
            lemma2_to64_rest();
            vstd::arithmetic::power2::lemma_pow2_strictly_increases(shift as nat, 64);
            vstd::bits::lemma_u64_shl_is_mul(1u64, shift as u64);
            assert(bit == pow2(shift as nat));
            lemma_pow2_adds(shift as nat, 64);
            lemma_pow2_adds(shift as nat, 128);
            lemma_pow2_adds(shift as nat, 192);
        }
        if n < 64 {
            U256 { l0: bit, l1: 0, l2: 0, l3: 0 }
        } else if n < 128 {
            U256 { l0: 0, l1: bit, l2: 0, l3: 0 }
        } else if n < 192 {
            U256 { l0: 0, l1: 0, l2: bit, l3: 0 }
        } else {
            U256 { l0: 0, l1: 0, l2: 0, l3: bit }
        }
    }

    /// The low 160 bits.
    pub fn low_160(self) -> (r: U256)
        ensures
            r@ == self@ % two_pow_160(),
    {
        let l2: u64 = self.l2 % 0x1_0000_0000u64;
        let r = U256 { l0: self.l0, l1: self.l1, l2, l3: 0 };
        proof {
            let top: int = self.l2 / 0x1_0000_0000u64 + self.l3 * two_pow_32();
            assert(self@ == top * two_pow_160() + r@);
            vstd::arithmetic::div_mod::lemma_fundamental_div_mod_converse(
                self@ as int,
                two_pow_160() as int,
                top,
                r@ as int,
            );
        }
        r
    }
}

} // verus!
