//! The concentrated-liquidity pool.

pub mod bit_math;
pub mod events;
pub mod invariants;
pub mod layout;
pub mod liquidity_amounts;
pub mod liquidity_math;
pub mod modify;
pub mod oracle;
pub mod pool;
pub mod position;
pub mod price_order;
pub mod raw;
pub mod swap;
pub mod swap_math;
pub mod swap_step;
pub mod tick;
pub mod tick_bitmap;
pub mod tick_math;
pub mod util;

pub use pool::{
    Info, LogPosition, ModifyPositionParams, OverflowError, PoolView, ProtocolFees, Slot0,
    UniswapV3Pool,
};
