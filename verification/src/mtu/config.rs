use vstd::prelude::*;
use vstd::string::StrSliceExecFns;
use vstd::string::StringSliceAdditionalSpecFns;

verus! {

/// Character framing used on the data line.
#[derive(Debug, Clone, Copy, PartialEq, Eq, Structural)]
pub enum UartFraming {
    /// 7 data bits, even parity, 1 stop bit: a 10-bit frame.
    SevenE1,
    /// 7 data bits, even parity, 2 stop bits: an 11-bit frame.
    SevenE2,
}

/// Number of bits of one character frame under framing `f`.
pub open spec fn spec_bits_per_frame(f: UartFraming) -> int {
    match f {
        UartFraming::SevenE1 => 10,
        UartFraming::SevenE2 => 11,
    }
}

impl UartFraming {
    /// 1 start bit + 7 data bits + 1 parity bit + 1 or 2 stop bits.
    pub fn bits_per_frame(self) -> (n: usize)
        ensures
            n == spec_bits_per_frame(self),
    {
        match self {
            UartFraming::SevenE1 => 10,
            UartFraming::SevenE2 => 11,
        }
    }
}

/// Configuration and statistics of one MTU session.
///
/// Durations are plain integers: microseconds or milliseconds, as each field
/// name says. The expected telegram is a byte string of ASCII code points,
/// including its terminating carriage return.
pub struct MtuConfig {
    /// Clock cycle duration in microseconds (period of the LOW/HIGH pair).
    pub cycle_duration_micros: u64,
    /// Time the clock is held HIGH before the first falling edge, in ms.
    pub power_up_delay_ms: u64,
    /// Per-bit timeout of the reassembler for incomplete frames, in ms.
    pub bit_timeout_ms: u64,
    /// Upper bound on one MTU transaction, in microseconds.
    pub runtime_micros: u64,
    /// Character framing shared with the METER.
    pub framing: UartFraming,
    /// Baud rate the clock generator is driven at.
    pub baud_rate: u32,
    /// Reference telegram the comparator grades received messages against.
    pub expected_message: Vec<u8>,
    /// Running count of telegrams that matched the reference.
    pub successful_reads: u32,
    /// Running count of transactions that ended without a matching telegram.
    pub corrupted_reads: u32,
}

impl MtuConfig {
    /// The clock generator divides a second by the baud rate, so the rate
    /// must be positive and no faster than one cycle per microsecond; the
    /// power-up hold fits the transaction clock.
    pub open spec fn wf(&self) -> bool {
        &&& 1 <= self.baud_rate <= 1_000_000
        &&& self.power_up_delay_ms <= 1_000_000
    }

    /// Bit period in microseconds derived from the baud rate.
    pub fn bit_duration_micros(&self) -> (d: u64)
        requires
            self.wf(),
        ensures
            d == 1_000_000u64 as int / self.baud_rate as int,
            1 <= d <= 1_000_000,
    {
        proof {
            assert(1_000_000int / (self.baud_rate as int) >= 1) by (nonlinear_arith)
                requires
                    1 <= self.baud_rate <= 1_000_000,
            ;
        }
        1_000_000u64 / (self.baud_rate as u64)
    }
}

/// The METER's factory-default telegram, which the MTU expects by default.
pub open spec fn spec_default_expected_message() -> Seq<u8> {
    "V;RB00000200;IB61564400;A1000;Z3214;XT0746;MT0683;RR00000000;GX000000;GN000000\r".spec_bytes()
}

impl Default for MtuConfig {
    /// 1 ms cycle, 1200 baud, 7E1 framing, 30 s runtime, 2 s bit timeout,
    /// 10 ms power-up hold, zeroed statistics, default expected telegram.
    fn default() -> (c: MtuConfig)
        ensures
            c.cycle_duration_micros == 1000,
            c.power_up_delay_ms == 10,
            c.bit_timeout_ms == 2000,
            c.runtime_micros == 30_000_000,
            c.framing == UartFraming::SevenE1,
            c.baud_rate == 1200,
            c.expected_message@ == spec_default_expected_message(),
            c.successful_reads == 0,
            c.corrupted_reads == 0,
            c.wf(),
    {
        let expected_message: Vec<u8> =
            "V;RB00000200;IB61564400;A1000;Z3214;XT0746;MT0683;RR00000000;GX000000;GN000000\r"
                .as_bytes_vec();
        MtuConfig {
            cycle_duration_micros: 1000,
            power_up_delay_ms: 10,
            bit_timeout_ms: 2000,
            runtime_micros: 30_000_000,
            framing: UartFraming::SevenE1,
            baud_rate: 1200,
            expected_message,
            successful_reads: 0,
            corrupted_reads: 0,
        }
    }
}

} // verus!
