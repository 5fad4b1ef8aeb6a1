//! Small helpers shared by the pool's modules.

use vstd::prelude::*;

use crate::errors::{AMMError, ArithmeticError, LogicError};
use crate::primitives::u256::two_pow_128;
use crate::primitives::{I256, U256};

verus! {

/// Succeeds when `assertion` holds and fails with `reason` otherwise.
pub fn require(assertion: bool, reason: LogicError) -> (r: Result<(), AMMError>)
    ensures
        r == (if assertion {
            Ok::<(), AMMError>(())
        } else {
            Err::<(), AMMError>(AMMError::LogicError(reason))
        }),
{
    if assertion {
        Ok(())
    } else {
        Err(AMMError::LogicError(reason))
    }
}

/// The low 128 bits of a 256-bit value.
pub fn to_u128(v: U256) -> (r: u128)
    ensures
        r == v@ % two_pow_128(),
{
    v.low_u128()
}

/// The signed 256-bit value as 128 bits, when it fits.
pub fn to_i128(v: I256) -> (r: Result<i128, AMMError>)
    ensures
        r == (if i128::MIN <= v@ <= i128::MAX {
            Ok::<i128, AMMError>(v@ as i128)
        } else {
            Err::<i128, AMMError>(AMMError::ArithmeticError(ArithmeticError::U128ConversionError))
        }),
{
    let magnitude: U256 = v.unsigned_abs();
    match magnitude.to_u128() {
        None => Err(AMMError::ArithmeticError(ArithmeticError::U128ConversionError)),
        Some(m) => {
            if v.is_negative() {
                if m > 0x8000_0000_0000_0000_0000_0000_0000_0000u128 {
                    Err(AMMError::ArithmeticError(ArithmeticError::U128ConversionError))
                } else if m == 0x8000_0000_0000_0000_0000_0000_0000_0000u128 {
                    Ok(i128::MIN)
                } else {
                    Ok(-(m as i128))
                }
            } else {
                if m > 0x7fff_ffff_ffff_ffff_ffff_ffff_ffff_ffffu128 {
                    Err(AMMError::ArithmeticError(ArithmeticError::U128ConversionError))
                } else {
                    Ok(m as i128)
                }
            }
        },
    }
}

/// The unsigned 128-bit value as a signed 256-bit one; this always fits.
pub fn to_i256(v: u128) -> (r: Result<I256, AMMError>)
    ensures
        r is Ok,
        r matches Ok(x) ==> x@ == v,
{
    match I256::try_from_u256(U256::from_u128(v)) {
        Some(x) => Ok(x),
        None => Err(AMMError::ArithmeticError(ArithmeticError::U128ConversionError)),
    }
}

} // verus!
