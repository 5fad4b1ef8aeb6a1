//! Account addresses.

use vstd::prelude::*;

verus! {

/// A 160-bit account address: `high` holds the first 4 bytes, `low` the
/// remaining 16, both read as big-endian numbers.
#[derive(Clone, Copy, Debug, PartialEq, Eq, Structural, Hash)]
pub struct Address {
    pub high: u32,
    pub low: u128,
}

impl Address {
    /// The all-zero address.
    pub fn zero() -> (r: Address)
        ensures
            r == (Address { high: 0, low: 0 }),
    {
        Address { high: 0, low: 0 }
    }

    /// Whether this is the all-zero address.
    pub fn is_zero(&self) -> (r: bool)
        ensures
            r == (*self == Address { high: 0, low: 0 }),
    {
        self.high == 0 && self.low == 0
    }
}

impl Default for Address {
    fn default() -> (r: Address)
        ensures
            r == (Address { high: 0, low: 0 }),
    {
        Address { high: 0, low: 0 }
    }
}

} // verus!
