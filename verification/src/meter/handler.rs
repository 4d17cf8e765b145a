use vstd::prelude::*;
use vstd::string::StrSliceExecFns;
use vstd::string::StringExecFns;
use vstd::string::StringExecFnsIsAscii;

use crate::meter::config::spec_framing_of;
use crate::meter::config::MeterConfig;
use crate::meter::config::MeterType;
use crate::meter::parser::MeterCommand;
use crate::mtu::uart_framing::encode_frame;
use crate::mtu::uart_framing::spec_encode;

verus! {

/// The decimal digit characters.
pub open spec fn spec_digit_char(d: int) -> char {
    if d == 0 {
        '0'
    } else if d == 1 {
        '1'
    } else if d == 2 {
        '2'
    } else if d == 3 {
        '3'
    } else if d == 4 {
        '4'
    } else if d == 5 {
        '5'
    } else if d == 6 {
        '6'
    } else if d == 7 {
        '7'
    } else if d == 8 {
        '8'
    } else {
        '9'
    }
}

/// Decimal text of a number, most significant digit first, no leading
/// zeros except for the number 0 itself.
pub open spec fn spec_udec(n: int) -> Seq<char>
    decreases n,
{
    if n < 10 {
        seq![spec_digit_char(n)]
    } else {
        spec_udec(n / 10) + seq![spec_digit_char(n % 10)]
    }
}

/// Appends one decimal digit character.
fn append_digit(s: &mut String, d: u64)
    requires
        d < 10,
    ensures
        final(s)@ == old(s)@ + seq![spec_digit_char(d as int)],
{
    if d == 0 {
        s.append("0");
        proof {
            reveal_strlit("0");
            assert(old(s)@ + "0"@ =~= old(s)@ + seq![spec_digit_char(d as int)]);
        }
    } else if d == 1 {
        s.append("1");
        proof {
            reveal_strlit("1");
            assert(old(s)@ + "1"@ =~= old(s)@ + seq![spec_digit_char(d as int)]);
        }
    } else if d == 2 {
        s.append("2");
        proof {
            reveal_strlit("2");
            assert(old(s)@ + "2"@ =~= old(s)@ + seq![spec_digit_char(d as int)]);
        }
    } else if d == 3 {
        s.append("3");
        proof {
            reveal_strlit("3");
            assert(old(s)@ + "3"@ =~= old(s)@ + seq![spec_digit_char(d as int)]);
        }
    } else if d == 4 {
        s.append("4");
        proof {
            reveal_strlit("4");
            assert(old(s)@ + "4"@ =~= old(s)@ + seq![spec_digit_char(d as int)]);
        }
    } else if d == 5 {
        s.append("5");
        proof {
            reveal_strlit("5");
            assert(old(s)@ + "5"@ =~= old(s)@ + seq![spec_digit_char(d as int)]);
        }
    } else if d == 6 {
        s.append("6");
        proof {
            reveal_strlit("6");
            assert(old(s)@ + "6"@ =~= old(s)@ + seq![spec_digit_char(d as int)]);
        }
    } else if d == 7 {
        s.append("7");
        proof {
            reveal_strlit("7");
            assert(old(s)@ + "7"@ =~= old(s)@ + seq![spec_digit_char(d as int)]);
        }
    } else if d == 8 {
        s.append("8");
        proof {
            reveal_strlit("8");
            assert(old(s)@ + "8"@ =~= old(s)@ + seq![spec_digit_char(d as int)]);
        }
    } else {
        s.append("9");
        proof {
            reveal_strlit("9");
            assert(old(s)@ + "9"@ =~= old(s)@ + seq![spec_digit_char(d as int)]);
        }
    }
}

/// Appends the decimal text of `num`.
fn write_num(s: &mut String, num: u64)
    ensures
        final(s)@ == old(s)@ + spec_udec(num as int),
    decreases num,
{
    if num >= 10 {
        write_num(s, num / 10);
    }
    append_digit(s, num % 10);
}

/// The bits of telegram `msg`, flattened to one sequence of character
/// frames in transmission order.
pub open spec fn spec_response_bits(msg: Seq<char>, t: MeterType) -> Seq<u8>
    decreases msg.len(),
{
    if msg.len() == 0 {
        Seq::empty()
    } else {
        spec_response_bits(msg.drop_last(), t) + spec_encode(msg.last() as u8, spec_framing_of(t))
    }
}

/// Flattens the configured telegram into the response-bit buffer the
/// bit-pump indexes. Built eagerly, while idle, so that the edge path is a
/// single array access.
pub fn response_frame_bits(config: &MeterConfig) -> (bits: Vec<u8>)
    requires
        config.wf(),
    ensures
        bits@ == spec_response_bits(config.response_message@, config.meter_type),
{
    let msg: &str = config.response_message.as_str();
    let n: usize = msg.unicode_len();
    let mut bits: Vec<u8> = Vec::new();
    let mut i: usize = 0;
    while i < n
        invariant
            i <= n,
            n == msg@.len(),
            vstd::utf8::is_ascii_chars(msg@),
            msg@ == config.response_message@,
            bits@ == spec_response_bits(msg@.take(i as int), config.meter_type),
        decreases n - i,
    {
        let byte: u8 = msg.get_ascii(i);
        let mut frame = encode_frame(byte, config.meter_type.framing());
        bits.append(&mut frame);
        proof {
            assert(msg@.take(i + 1).drop_last() =~= msg@.take(i as int));
            assert(msg@.take(i + 1).last() == msg@[i as int]);
        }
        i = i + 1;
    }
    proof {
        assert(msg@.take(n as int) =~= msg@);
    }
    bits
}

/// The name a meter type goes by in console replies.
pub open spec fn spec_type_name(t: MeterType) -> Seq<char> {
    match t {
        MeterType::Sensus => "Sensus (7E1)"@,
        MeterType::Neptune => "Neptune (7E2)"@,
    }
}

/// The console's help reply.
pub open spec fn spec_help_text() -> Seq<char> {
    "Meter commands:\r\n"@ + "  type [sensus|neptune] - Set meter type\r\n"@
        + "  message <text> - Set response message\r\n"@
        + "  enable/disable - Enable/disable meter\r\n"@ + "  status - Show current config"@
}

/// The uptime part of the status reply: hours and minutes only once they
/// are nonzero, seconds always.
pub open spec fn spec_uptime_text(uptime_secs: int) -> Seq<char> {
    let hours = uptime_secs / 3600;
    let minutes = (uptime_secs % 3600) / 60;
    let seconds = uptime_secs % 60;
    (if hours > 0 {
        spec_udec(hours) + "h "@
    } else {
        Seq::empty()
    }) + (if minutes > 0 || hours > 0 {
        spec_udec(minutes) + "m "@
    } else {
        Seq::empty()
    }) + spec_udec(seconds) + "s"@
}

/// The status reply.
pub open spec fn spec_status_text(c: MeterConfig, uptime_secs: int) -> Seq<char> {
    "Meter Status:\r\n"@ + "  Type: "@ + spec_type_name(c.meter_type) + "\r\n  State: "@ + (
    if c.enabled {
        "Enabled"@
    } else {
        "Disabled"@
    }) + "\r\n  Message: "@ + c.response_message@ + "\r\n  Pins: P0.02 (clock in), P0.03 (data out)"@
        + "\r\n  Uptime: "@ + spec_uptime_text(uptime_secs)
}

/// The reply text of each console command, given the configuration it
/// acts on and the uptime shown by a status reply.
pub open spec fn spec_meter_reply(cmd: MeterCommand, c: MeterConfig, uptime_secs: int) -> Seq<
    char,
> {
    match cmd {
        MeterCommand::Help => spec_help_text(),
        MeterCommand::Clear => Seq::empty(),
        MeterCommand::Version => "Water Meter Simulator v1.0.0"@,
        MeterCommand::Status => spec_status_text(c, uptime_secs),
        MeterCommand::SetType(t) => "Meter type set to: "@ + spec_type_name(t),
        MeterCommand::SetMessage(m) => if vstd::utf8::is_ascii_chars(m@) {
            "Response message set to: "@ + m@
        } else {
            spec_help_text()
        },
        MeterCommand::Enable => "Meter enabled - listening for MTU wake-up signals"@,
        MeterCommand::Disable => "Meter disabled"@,
        MeterCommand::Test => Seq::empty(),
    }
}

/// Owns the METER's configuration and answers its console commands.
pub struct MeterHandler {
    /// Current configuration; the bit-pump works on a snapshot of it.
    pub config: MeterConfig,
    /// Whether the meter listens for MTU wake-up signals.
    pub listening: bool,
}

impl MeterHandler {
    pub fn new(config: MeterConfig) -> (h: MeterHandler)
        ensures
            h.config == config,
            h.listening,
    {
        MeterHandler { config, listening: true }
    }

    /// Carries out one console command: updates the configuration and
    /// composes the reply text, exactly as [`spec_meter_reply`] gives it.
    /// The telegram a `message` command carries must be 7-bit ASCII to be
    /// framed; other text is refused with the help reply and leaves the
    /// configuration unchanged.
    #[verifier::rlimit(60)]
    pub fn execute_command(&mut self, command: MeterCommand, uptime_secs: u64) -> (r: Result<
        String,
        (),
    >)
        requires
            old(self).config.wf(),
        ensures
            final(self).config.wf(),
            r matches Ok(m) && m@ == spec_meter_reply(command, old(self).config, uptime_secs as int),
            final(self).config.meter_type == (match command {
                MeterCommand::SetType(t) => t,
                _ => old(self).config.meter_type,
            }),
            final(self).config.response_message@ == (match command {
                MeterCommand::SetMessage(m) => if vstd::utf8::is_ascii_chars(m@) {
                    m@
                } else {
                    old(self).config.response_message@
                },
                _ => old(self).config.response_message@,
            }),
            final(self).config.enabled == (match command {
                MeterCommand::Enable => true,
                MeterCommand::Disable => false,
                _ => old(self).config.enabled,
            }),
            final(self).listening == (match command {
                MeterCommand::Enable => true,
                MeterCommand::Disable => false,
                _ => old(self).listening,
            }),
            final(self).config.response_delay_ms == old(self).config.response_delay_ms,
    {
        let mut response = String::new();
        match command {
            MeterCommand::Help => {
                response.append("Meter commands:\r\n");
                response.append("  type [sensus|neptune] - Set meter type\r\n");
                response.append("  message <text> - Set response message\r\n");
                response.append("  enable/disable - Enable/disable meter\r\n");
                response.append("  status - Show current config");
            },
            MeterCommand::Clear => {
                // Clearing the screen is the console's own business.
            },
            MeterCommand::Version => {
                response.append("Water Meter Simulator v1.0.0");
            },
            MeterCommand::Status => {
                response.append("Meter Status:\r\n");
                response.append("  Type: ");
                match self.config.meter_type {
                    MeterType::Sensus => {
                        response.append("Sensus (7E1)");
                    },
                    MeterType::Neptune => {
                        response.append("Neptune (7E2)");
                    },
                }
                response.append("\r\n  State: ");
                if self.config.enabled {
                    response.append("Enabled");
                } else {
                    response.append("Disabled");
                }
                response.append("\r\n  Message: ");
                response.append(self.config.response_message.as_str());
                response.append("\r\n  Pins: P0.02 (clock in), P0.03 (data out)");

                let hours: u64 = uptime_secs / 3600;
                let minutes: u64 = (uptime_secs % 3600) / 60;
                let seconds: u64 = uptime_secs % 60;

                response.append("\r\n  Uptime: ");
                if hours > 0 {
                    write_num(&mut response, hours);
                    response.append("h ");
                }
                if minutes > 0 || hours > 0 {
                    write_num(&mut response, minutes);
                    response.append("m ");
                }
                write_num(&mut response, seconds);
                response.append("s");
            },
            MeterCommand::SetType(meter_type) => {
                self.config.meter_type = meter_type;
                response.append("Meter type set to: ");
                match meter_type {
                    MeterType::Sensus => {
                        response.append("Sensus (7E1)");
                    },
                    MeterType::Neptune => {
                        response.append("Neptune (7E2)");
                    },
                }
            },
            MeterCommand::SetMessage(message) => {
                if message.is_ascii() {
                    response.append("Response message set to: ");
                    response.append(message.as_str());
                    self.config.response_message = message;
                } else {
                    response.append("Meter commands:\r\n");
                    response.append("  type [sensus|neptune] - Set meter type\r\n");
                    response.append("  message <text> - Set response message\r\n");
                    response.append("  enable/disable - Enable/disable meter\r\n");
                    response.append("  status - Show current config");
                }
            },
            MeterCommand::Enable => {
                self.config.enabled = true;
                self.listening = true;
                response.append("Meter enabled - listening for MTU wake-up signals");
            },
            MeterCommand::Disable => {
                self.config.enabled = false;
                self.listening = false;
                response.append("Meter disabled");
            },
            MeterCommand::Test => {
                // A self-test run is driven by the console loop.
            },
        }
        Ok(response)
    }

    /// Frame of one telegram character under the framing of `meter_type`.
    pub fn build_uart_frame(&self, byte: u8, meter_type: &MeterType) -> (bits: Vec<u8>)
        ensures
            bits@ == spec_encode(byte, spec_framing_of(*meter_type)),
    {
        encode_frame(byte, meter_type.framing())
    }

    /// The complete response-bit buffer for the configured telegram.
    pub fn build_response_frames(&self) -> (bits: Vec<u8>)
        requires
            self.config.wf(),
        ensures
            bits@ == spec_response_bits(self.config.response_message@, self.config.meter_type),
    {
        response_frame_bits(&self.config)
    }
}

} // verus!
