//! Applying a signed liquidity change to an unsigned amount.

use vstd::prelude::*;

use crate::errors::{AMMError, LogicError};

verus! {

/// The outcome of adding the signed `y` to `x` within 128 bits.
pub open spec fn add_delta_spec(x: u128, y: i128) -> Result<u128, AMMError> {
    if y < 0 {
        if x + y >= 0 {
            Ok((x + y) as u128)
        } else {
            Err(AMMError::LogicError(LogicError::LiquiditySub))
        }
    } else {
        if x + y <= u128::MAX {
            Ok((x + y) as u128)
        } else {
            Err(AMMError::LogicError(LogicError::LiquidityAdd))
        }
    }
}

/// The magnitude of `y` as an unsigned value.
pub fn magnitude(y: i128) -> (m: u128)
    ensures
        m == (if y < 0 {
            -y
        } else {
            y as int
        }),
{
    if y >= 0 {
        y as u128
    } else if y == i128::MIN {
        0x8000_0000_0000_0000_0000_0000_0000_0000u128
    } else {
        (-y) as u128
    }
}

/// Adds a signed liquidity delta to liquidity, failing when the result
/// leaves the unsigned 128-bit range.
pub fn add_delta(x: u128, y: i128) -> (r: Result<u128, AMMError>)
    ensures
        r == add_delta_spec(x, y),
{
    if y < 0 {
        let m: u128 = magnitude(y);
        if m > x {
            Err(AMMError::LogicError(LogicError::LiquiditySub))
        } else {
            Ok(x - m)
        }
    } else {
        match x.checked_add(y as u128) {
            Some(z) => Ok(z),
            None => Err(AMMError::LogicError(LogicError::LiquidityAdd)),
        }
    }
}

} // verus!
