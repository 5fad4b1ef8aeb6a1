//! Error types shared by the pool model.

use vstd::prelude::*;

verus! {

/// A named protocol rule that a call violated.
///
/// Each variant stands for one short reason label of the protocol; see
/// [`LogicError::label`].
#[derive(Clone, Copy, Debug, PartialEq, Eq, Structural)]
pub enum LogicError {
    /// The specified swap amount is zero.
    AmountSpecifiedZero,
    /// The price limit lies on the wrong side of the current price or outside the price range.
    SqrtPriceLimit,
    /// The lower tick is not below the upper tick.
    TickLowerNotBelowUpper,
    /// The lower tick is below the minimum tick.
    TickLowerTooLow,
    /// The upper tick is above the maximum tick.
    TickUpperTooHigh,
    /// Gross liquidity at a tick would exceed the per-tick maximum.
    LiquidityOverMax,
    /// Subtracting liquidity would go below zero.
    LiquiditySub,
    /// Adding liquidity would exceed 128 bits.
    LiquidityAdd,
    /// A position without liquidity was poked.
    NoPosition,
    /// The pool holds no in-range liquidity.
    NoLiquidity,
    /// A mint asked for zero liquidity.
    MintAmountZero,
    /// A swap step neither finished the swap nor advanced the tick.
    NoProgress,
    /// The oldest observation is younger than the time asked for.
    ObservationTooOld,
    /// No pair of observations surrounds the time asked for.
    ObservationMissing,
}

impl LogicError {
    /// The protocol's short label for this reason, as a string of characters.
    pub open spec fn label_spec(self) -> Seq<char> {
        match self {
            LogicError::AmountSpecifiedZero => "AS"@,
            LogicError::SqrtPriceLimit => "SPL"@,
            LogicError::TickLowerNotBelowUpper => "TLU"@,
            LogicError::TickLowerTooLow => "TLM"@,
            LogicError::TickUpperTooHigh => "TUM"@,
            LogicError::LiquidityOverMax => "LO"@,
            LogicError::LiquiditySub => "LS"@,
            LogicError::LiquidityAdd => "LA"@,
            LogicError::NoPosition => "NP"@,
            LogicError::NoLiquidity => "L"@,
            LogicError::MintAmountZero => "mint: amount must be larger than zero"@,
            LogicError::NoProgress => "swap step made no progress"@,
            LogicError::ObservationTooOld => "OLD"@,
            LogicError::ObservationMissing => "no observation around the target"@,
        }
    }

    /// The protocol's short label for this reason.
    pub fn label(&self) -> (s: &'static str)
        ensures
            s@ == self.label_spec(),
    {
        match self {
            LogicError::AmountSpecifiedZero => "AS",
            LogicError::SqrtPriceLimit => "SPL",
            LogicError::TickLowerNotBelowUpper => "TLU",
            LogicError::TickLowerTooLow => "TLM",
            LogicError::TickUpperTooHigh => "TUM",
            LogicError::LiquidityOverMax => "LO",
            LogicError::LiquiditySub => "LS",
            LogicError::LiquidityAdd => "LA",
            LogicError::NoPosition => "NP",
            LogicError::NoLiquidity => "L",
            LogicError::MintAmountZero => "mint: amount must be larger than zero",
            LogicError::NoProgress => "swap step made no progress",
            LogicError::ObservationTooOld => "OLD",
            LogicError::ObservationMissing => "no observation around the target",
        }
    }
}

/// Numeric bounds violated during a conversion or a fixed-point operation.
#[derive(Clone, Copy, Debug, PartialEq, Eq, Structural)]
pub enum ArithmeticError {
    /// A value does not fit the 128-bit target type.
    U128ConversionError,
    /// A value does not fit the signed 256-bit target type.
    I256ConversionError,
    /// A full-precision multiplication or division overflowed or divided by zero.
    MulDivError,
    /// A single swap step could not be computed.
    SwapStepError,
    /// The price lies outside the range that has a tick.
    SqrtPriceOutOfBounds,
    /// An accumulator left its width.
    Overflow,
}

/// Problems with an event handed to the replay entry point.
#[derive(Clone, Copy, Debug, PartialEq, Eq, Structural)]
pub enum EventLogError {
    /// The event is of a kind the pool does not replay.
    InvalidEventSignature,
    /// The event carries no block number.
    LogBlockNumberNotFound,
    /// The event carries no block time.
    LogBlockTimestampNotFound,
}

/// Errors of the pool's state transitions.
#[derive(Clone, Copy, Debug, PartialEq, Eq, Structural)]
pub enum AMMError {
    /// A protocol rule was violated.
    LogicError(LogicError),
    /// A numeric bound was violated.
    ArithmeticError(ArithmeticError),
    /// A tick is not a multiple of the tick spacing.
    TickSpacingError,
    /// A replayed event's logged outputs disagree with the computed ones.
    ReplayInconsistency,
    /// A replayed event is older than the last one applied.
    OutOfOrderReplay,
    /// The event could not be used.
    EventLogError(EventLogError),
    /// The pool's static data is missing.
    PoolDataError,
}

/// Errors of a read-only swap simulation.
#[derive(Clone, Copy, Debug, PartialEq, Eq, Structural)]
pub enum SwapSimulationError {
    /// The state and the base pool are of different kinds.
    MixedTypes,
    /// A reserve left the 128-bit range.
    ReserveOverflow,
    /// Crossing a tick would take in-range liquidity below zero.
    LiquidityUnderflow,
    /// The pool rejected the swap.
    Rejected(AMMError),
}

} // verus!
