//! Off-chain model of a concentrated-liquidity automated market maker.
//!
//! The crate reproduces the integer state transitions of the pool: tick and
//! price conversion, the tick bitmap, per-tick and per-position bookkeeping,
//! the observation ring, the swap loop, and a copy-on-write slot store.

pub mod amm;
pub mod errors;
pub mod primitives;
pub mod sync;
