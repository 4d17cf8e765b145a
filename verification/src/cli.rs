//! The MTU console: command grammar and parser.

use vstd::prelude::*;

pub mod parser;

verus! {

/// A parsed MTU console command.
#[derive(Debug, Clone)]
pub enum CliCommand {
    Help,
    Version,
    Status,
    Uptime,
    Clear,
    Reset,
    Echo(String),
    LedOn(u8),
    LedOff(u8),
    Button,
    Temp,
    /// Scan for nearby devices, optionally for this many seconds.
    BtScan(Option<u16>),
    Empty,
    /// An unrecognized command word, or a diagnostic for a recognized one
    /// with a bad argument.
    Unknown(String),
    /// Start a meter reading, optionally bounded by this many seconds.
    MtuStart(Option<u16>),
    MtuStop,
    MtuStatus,
}

/// Errors of the MTU console itself.
#[derive(Debug, Clone, Copy, PartialEq, Eq, Structural)]
pub enum CliError {
    InvalidCommand,
    InvalidArgument,
    UartError,
    BufferFull,
}

} // verus!
