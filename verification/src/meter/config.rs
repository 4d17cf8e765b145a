use vstd::prelude::*;
use vstd::string::StringExecFns;

use crate::mtu::config::UartFraming;

verus! {

/// The meter family being simulated, which fixes the character framing.
#[derive(Debug, Clone, Copy, PartialEq, Eq, Structural)]
pub enum MeterType {
    Sensus,
    Neptune,
}

impl MeterType {
    /// Sensus meters speak 10-bit frames, Neptune meters 11-bit frames.
    pub fn framing(&self) -> (f: UartFraming)
        ensures
            f == spec_framing_of(*self),
    {
        match self {
            MeterType::Sensus => UartFraming::SevenE1,
            MeterType::Neptune => UartFraming::SevenE2,
        }
    }
}

/// Framing of each meter type.
pub open spec fn spec_framing_of(t: MeterType) -> UartFraming {
    match t {
        MeterType::Sensus => UartFraming::SevenE1,
        MeterType::Neptune => UartFraming::SevenE2,
    }
}

/// Configuration of the METER role.
pub struct MeterConfig {
    /// Which meter family is simulated.
    pub meter_type: MeterType,
    /// Telegram sent in answer to a wake-up sequence, including its
    /// terminating carriage return.
    pub response_message: String,
    /// Delay before a response, in milliseconds.
    pub response_delay_ms: u64,
    /// Whether the meter answers clock edges at all.
    pub enabled: bool,
}

impl MeterConfig {
    /// The telegram is 7-bit ASCII text: every character fits one frame.
    pub open spec fn wf(&self) -> bool {
        vstd::utf8::is_ascii_chars(self.response_message@)
    }
}

/// The factory-default telegram: three characters of recognizable bit
/// patterns and the terminating carriage return.
pub open spec fn spec_default_response_message() -> Seq<char> {
    "U3\u{f}\r"@
}

impl Default for MeterConfig {
    /// A Sensus meter, enabled, with the default test telegram.
    fn default() -> (c: MeterConfig)
        ensures
            c.meter_type == MeterType::Sensus,
            c.response_message@ == spec_default_response_message(),
            c.response_delay_ms == 50,
            c.enabled,
            c.wf(),
    {
        // 0x55 and 0x33 and 0x0F are alternating test bit patterns;
        // 0x0D is the carriage return that ends the telegram.
        let response_message = String::from_str("U3\u{f}\r");
        proof {
            reveal_strlit("U3\u{f}\r");
            assert(vstd::utf8::is_ascii_chars(response_message@));
        }
        MeterConfig { meter_type: MeterType::Sensus, response_message, response_delay_ms: 50, enabled: true }
    }
}

} // verus!
