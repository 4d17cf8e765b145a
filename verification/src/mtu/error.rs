use vstd::prelude::*;

verus! {

/// Errors reported by the MTU transport core.
///
/// The framing errors are per-character and recoverable: the reassembler
/// resumes hunting for a start bit. `TimeoutError` and `ChannelError` are
/// per-transaction diagnostics; `GpioError` and `ConfigError` are fatal to a
/// transaction.
#[derive(Debug, Clone, Copy, PartialEq, Eq, Structural)]
pub enum MtuError {
    GpioError,
    TimeoutError,
    FramingError,
    FramingErrorInvalidBitCount,
    FramingErrorInvalidStartBit,
    FramingErrorInvalidStopBit,
    FramingErrorParityMismatch,
    ConfigError,
    ChannelError,
}

pub type MtuResult<T> = Result<T, MtuError>;

} // verus!
