//! Signed 256-bit integers in two's complement.

use vstd::prelude::*;

use crate::primitives::u256::{
    lemma_from_nat, lemma_from_nat_view, lemma_halves, two_pow_255, two_pow_256, u256_from_nat,
    U256,
};

verus! {

/// A signed 256-bit integer; `raw` holds its two's complement bits.
#[derive(Clone, Copy, Debug, PartialEq, Eq, Structural, Hash)]
pub struct I256 {
    pub raw: U256,
}

/// The signed number that 256 bits stand for in two's complement.
pub open spec fn signed_value(raw: nat) -> int {
    if raw < two_pow_255() {
        raw as int
    } else {
        raw - two_pow_256()
    }
}

/// The bits that stand for a signed number in two's complement.
pub open spec fn raw_value(x: int) -> nat {
    if x >= 0 {
        x as nat
    } else {
        (x + two_pow_256()) as nat
    }
}

/// The value with the signed number `x`, for `x` in the signed 256-bit range.
pub open spec fn i256_from_int(x: int) -> I256 {
    I256 { raw: u256_from_nat(raw_value(x)) }
}

/// A value is the value built from its number.
pub broadcast proof fn lemma_i256_from_int_view(v: I256)
    ensures
        #[trigger] i256_from_int(v@) == v,
{
    lemma_halves(v.raw);
    lemma_from_nat_view(v.raw);
}

/// The value built from a number in range has that number.
pub proof fn lemma_i256_from_int(x: int)
    requires
        -(two_pow_255() as int) <= x < two_pow_255(),
    ensures
        i256_from_int(x)@ == x,
{
    lemma_from_nat(raw_value(x));
}

impl View for I256 {
    type V = int;

    open spec fn view(&self) -> int {
        signed_value(self.raw@)
    }
}

impl I256 {
    /// The smallest value, -2^255, as a number.
    pub open spec fn min_int() -> int {
        -(two_pow_255() as int)
    }

    /// The largest value, 2^255 - 1, as a number.
    pub open spec fn max_int() -> int {
        two_pow_255() - 1
    }

    /// A signed value lies within the 256-bit signed range.
    pub proof fn lemma_range(self)
        ensures
            Self::min_int() <= self@ <= Self::max_int(),
            self.raw@ == raw_value(self@),
    {
        lemma_halves(self.raw);
    }

    /// The value 0.
    pub fn zero() -> (r: I256)
        ensures
            r@ == 0,
    {
        I256 { raw: U256::zero() }
    }

    /// Reads 256 bits as two's complement.
    pub fn from_raw(raw: U256) -> (r: I256)
        ensures
            r.raw == raw,
            r@ == signed_value(raw@),
    {
        I256 { raw }
    }

    /// The two's complement bits.
    pub fn into_raw(self) -> (r: U256)
        ensures
            r == self.raw,
            r@ == raw_value(self@),
    {
        proof {
            self.lemma_range();
        }
        self.raw
    }

    /// The unsigned value as a signed one, when it is below 2^255.
    pub fn try_from_u256(x: U256) -> (r: Option<I256>)
        ensures
            r is Some <==> x@ < two_pow_255(),
            r matches Some(v) ==> v@ == x@ && v.raw == x,
    {
        if x.l3 < 0x8000_0000_0000_0000u64 {
            Some(I256 { raw: x })
        } else {
            None
        }
    }

    /// Widens a signed 128-bit value.
    pub fn from_i128(x: i128) -> (r: I256)
        ensures
            r@ == x,
    {
        if x >= 0 {
            I256 { raw: U256::from_u128(x as u128) }
        } else {
            let m: u128 = if x == i128::MIN {
                0x8000_0000_0000_0000_0000_0000_0000_0000u128
            } else {
                (-x) as u128
            };
            I256 { raw: U256::zero().wrapping_sub(U256::from_u128(m)) }
        }
    }

    /// Whether the value is below zero.
    pub fn is_negative(self) -> (r: bool)
        ensures
            r == (self@ < 0),
    {
        proof {
            lemma_halves(self.raw);
        }
        self.raw.l3 >= 0x8000_0000_0000_0000u64
    }

    /// Whether the value is above zero.
    pub fn is_positive(self) -> (r: bool)
        ensures
            r == (self@ > 0),
    {
        !self.is_negative() && !self.raw.is_zero()
    }

    /// Whether the value is zero.
    pub fn is_zero(self) -> (r: bool)
        ensures
            r == (self@ == 0),
    {
        proof {
            lemma_halves(self.raw);
        }
        self.raw.is_zero()
    }

    /// Whether the two values are the same number.
    pub fn equals(self, other: I256) -> (r: bool)
        ensures
            r == (self@ == other@),
            r == (self == other),
    {
        proof {
            self.lemma_range();
            other.lemma_range();
        }
        self.raw.equals(other.raw)
    }

    /// Whether `self` is strictly below `other`.
    pub fn lt(self, other: I256) -> (r: bool)
        ensures
            r == (self@ < other@),
    {
        let a_neg: bool = self.is_negative();
        let b_neg: bool = other.is_negative();
        if a_neg != b_neg {
            a_neg
        } else {
            self.raw.lt(other.raw)
        }
    }

    /// The magnitude as an unsigned value.
    pub fn unsigned_abs(self) -> (r: U256)
        ensures
            r@ == (if self@ < 0 {
                -self@
            } else {
                self@
            }),
    {
        proof {
            lemma_halves(self.raw);
        }
        if self.is_negative() {
            U256::zero().wrapping_sub(self.raw)
        } else {
            self.raw
        }
    }

    /// The negated value, when it fits.
    pub fn checked_neg(self) -> (r: Option<I256>)
        ensures
            r is Some <==> self@ != Self::min_int(),
            r matches Some(v) ==> v@ == -self@,
    {
        proof {
            lemma_halves(self.raw);
        }
        let raw: U256 = U256::zero().wrapping_sub(self.raw);
        let v = I256 { raw };
        if self.is_negative() && v.is_negative() {
            None
        } else {
            Some(v)
        }
    }

    /// The sum, when it fits.
    pub fn checked_add(self, rhs: I256) -> (r: Option<I256>)
        ensures
            r is Some <==> Self::min_int() <= self@ + rhs@ <= Self::max_int(),
            r matches Some(v) ==> v@ == self@ + rhs@,
    {
        proof {
            lemma_halves(self.raw);
            lemma_halves(rhs.raw);
        }
        let v = I256 { raw: self.raw.wrapping_add(rhs.raw) };
        let a_neg: bool = self.is_negative();
        let b_neg: bool = rhs.is_negative();
        let v_neg: bool = v.is_negative();
        if a_neg == b_neg && v_neg != a_neg {
            None
        } else {
            Some(v)
        }
    }

    /// The difference, when it fits.
    pub fn checked_sub(self, rhs: I256) -> (r: Option<I256>)
        ensures
            r is Some <==> Self::min_int() <= self@ - rhs@ <= Self::max_int(),
            r matches Some(v) ==> v@ == self@ - rhs@,
    {
        proof {
            lemma_halves(self.raw);
            lemma_halves(rhs.raw);
        }
        let v = I256 { raw: self.raw.wrapping_sub(rhs.raw) };
        let a_neg: bool = self.is_negative();
        let b_neg: bool = rhs.is_negative();
        let v_neg: bool = v.is_negative();
        if a_neg != b_neg && v_neg != a_neg {
            None
        } else {
            Some(v)
        }
    }
}

} // verus!
