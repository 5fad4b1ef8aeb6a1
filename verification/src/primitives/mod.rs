//! Fixed-width integers and addresses as plain values.

pub mod address;
pub mod bits;
pub mod full_math;
pub mod i256;
pub mod wrapping;
pub mod u256;

pub use address::Address;
pub use i256::I256;
pub use u256::U256;
