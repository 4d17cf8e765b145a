use vstd::prelude::*;
use vstd::string::StrSliceExecFns;

use crate::cli::parser::join_spans;
use crate::cli::parser::span_eq;
use crate::cli::parser::spec_join_spaces;
use crate::cli::parser::spec_span_texts;
use crate::cli::parser::spec_tokens;
use crate::cli::parser::tokenize_spans;
use crate::meter::config::MeterType;

verus! {

/// A parsed METER console command.
#[derive(Debug, Clone)]
pub enum MeterCommand {
    Help,
    Clear,
    Version,
    Status,
    SetType(MeterType),
    SetMessage(String),
    Enable,
    Disable,
    Test,
}

/// The telegram text a `message` command sets: the words after the
/// command joined by single spaces, with a carriage return appended
/// unless one already ends the text.
pub open spec fn spec_message_text(toks: Seq<Seq<char>>) -> Seq<char> {
    let joined = spec_join_spaces(toks.drop_first());
    if joined.len() > 0 && joined.last() == '\r' {
        joined
    } else {
        joined + seq!['\r']
    }
}

/// Whether the parse result `r` is what the METER console grammar
/// assigns to the word sequence `toks`. Unrecognized or incomplete
/// commands fall back to `Help`.
pub open spec fn spec_meter_parse(toks: Seq<Seq<char>>, r: MeterCommand) -> bool {
    if toks.len() == 0 {
        r is Help
    } else {
        let cmd = toks[0];
        if cmd == "help"@ || cmd == "h"@ {
            r is Help
        } else if cmd == "clear"@ || cmd == "cls"@ {
            r is Clear
        } else if cmd == "version"@ || cmd == "ver"@ {
            r is Version
        } else if cmd == "status"@ || cmd == "stat"@ {
            r is Status
        } else if cmd == "enable"@ {
            r is Enable
        } else if cmd == "disable"@ {
            r is Disable
        } else if cmd == "test"@ {
            r is Test
        } else if cmd == "type"@ {
            if toks.len() >= 2 {
                if toks[1] == "sensus"@ || toks[1] == "s"@ {
                    r matches MeterCommand::SetType(t) && t == MeterType::Sensus
                } else if toks[1] == "neptune"@ || toks[1] == "n"@ {
                    r matches MeterCommand::SetType(t) && t == MeterType::Neptune
                } else {
                    r is Help
                }
            } else {
                r is Help
            }
        } else if cmd == "message"@ || cmd == "msg"@ {
            if toks.len() >= 2 {
                r matches MeterCommand::SetMessage(m) && m@ == spec_message_text(toks)
            } else {
                r is Help
            }
        } else {
            r is Help
        }
    }
}

/// Parses METER console command lines.
pub struct MeterCommandParser;

/// The command words the METER console understands, in the order its
/// help lists them.
pub open spec fn spec_meter_commands() -> Seq<Seq<char>> {
    seq![
        "help"@,
        "clear"@,
        "version"@,
        "status"@,
        "type"@,
        "message"@,
        "enable"@,
        "disable"@,
        "test"@,
    ]
}

impl MeterCommandParser {
    /// Parses one console line; see [`spec_meter_parse`] for the grammar.
    pub fn parse_command(input: &str) -> (r: MeterCommand)
        ensures
            spec_meter_parse(spec_tokens(input@), r),
    {
        let spans = tokenize_spans(input);
        let ghost toks = spec_tokens(input@);
        if spans.len() == 0 {
            return MeterCommand::Help;
        }
        let (a0, b0) = spans[0];

        if span_eq(input, a0, b0, "help") || span_eq(input, a0, b0, "h") {
            MeterCommand::Help
        } else if span_eq(input, a0, b0, "clear") || span_eq(input, a0, b0, "cls") {
            MeterCommand::Clear
        } else if span_eq(input, a0, b0, "version") || span_eq(input, a0, b0, "ver") {
            MeterCommand::Version
        } else if span_eq(input, a0, b0, "status") || span_eq(input, a0, b0, "stat") {
            MeterCommand::Status
        } else if span_eq(input, a0, b0, "enable") {
            MeterCommand::Enable
        } else if span_eq(input, a0, b0, "disable") {
            MeterCommand::Disable
        } else if span_eq(input, a0, b0, "test") {
            MeterCommand::Test
        } else if span_eq(input, a0, b0, "type") {
            if spans.len() >= 2 {
                let (a1, b1) = spans[1];
                if span_eq(input, a1, b1, "sensus") || span_eq(input, a1, b1, "s") {
                    MeterCommand::SetType(MeterType::Sensus)
                } else if span_eq(input, a1, b1, "neptune") || span_eq(input, a1, b1, "n") {
                    MeterCommand::SetType(MeterType::Neptune)
                } else {
                    MeterCommand::Help
                }
            } else {
                MeterCommand::Help
            }
        } else if span_eq(input, a0, b0, "message") || span_eq(input, a0, b0, "msg") {
            if spans.len() >= 2 {
                let mut message = join_spans(input, &spans, 1);
                proof {
                    assert(spec_span_texts(input@, spans@).subrange(1, spans@.len() as int)
                        =~= toks.drop_first());
                }
                // The joined text ends with the last word's last
                // character; append the terminating carriage return if it
                // is not already there.
                let (al, bl) = spans[spans.len() - 1];
                let last_char = input.get_char(bl - 1);
                proof {
                    let rest = toks.drop_first();
                    assert(rest.last() == spec_span_texts(input@, spans@).last());
                    assert(rest.last().len() > 0);
                    if rest.len() == 1 {
                        assert(spec_join_spaces(rest) == rest[0]);
                        assert(message@.last() == rest.last().last());
                    } else {
                        assert(spec_join_spaces(rest) == spec_join_spaces(rest.drop_last())
                            + seq![' '] + rest.last());
                        assert(message@.last() == rest.last().last());
                    }
                    assert(rest.last().last() == input@[bl - 1]);
                }
                if last_char != '\r' {
                    message.append("\r");
                    proof {
                        reveal_strlit("\r");
                        assert(message@ =~= spec_message_text(toks));
                    }
                } else {
                    proof {
                        assert(message@ =~= spec_message_text(toks));
                    }
                }
                MeterCommand::SetMessage(message)
            } else {
                MeterCommand::Help
            }
        } else {
            MeterCommand::Help
        }
    }

    /// The command words the METER console understands.
    pub fn available_commands() -> (cmds: Vec<&'static str>)
        ensures
            cmds.deep_view() == spec_meter_commands(),
    {
        let mut cmds: Vec<&'static str> = Vec::new();
        cmds.push("help");
        cmds.push("clear");
        cmds.push("version");
        cmds.push("status");
        cmds.push("type");
        cmds.push("message");
        cmds.push("enable");
        cmds.push("disable");
        cmds.push("test");
        proof {
            assert(cmds.deep_view() =~~= spec_meter_commands());
        }
        cmds
    }
}

} // verus!
