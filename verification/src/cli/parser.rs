use vstd::prelude::*;
use vstd::string::StrSliceExecFns;

use crate::cli::CliCommand;

verus! {

/// The whitespace characters that separate command words: the ASCII
/// whitespace set.
pub open spec fn spec_is_space(c: char) -> bool {
    c == ' ' || c == '\t' || c == '\n' || c == '\r' || c == '\u{b}' || c == '\u{c}'
}

fn is_space(c: char) -> (b: bool)
    ensures
        b == spec_is_space(c),
{
    c == ' ' || c == '\t' || c == '\n' || c == '\r' || c == '\u{b}' || c == '\u{c}'
}

/// Splitting a character sequence into whitespace-separated words, as an
/// accumulating scan: `cur` is the word in progress, `acc` the words
/// already finished.
pub open spec fn spec_tokens_acc(s: Seq<char>, cur: Seq<char>, acc: Seq<Seq<char>>) -> Seq<
    Seq<char>,
>
    decreases s.len(),
{
    if s.len() == 0 {
        if cur.len() > 0 {
            acc.push(cur)
        } else {
            acc
        }
    } else if spec_is_space(s[0]) {
        if cur.len() > 0 {
            spec_tokens_acc(s.drop_first(), Seq::empty(), acc.push(cur))
        } else {
            spec_tokens_acc(s.drop_first(), Seq::empty(), acc)
        }
    } else {
        spec_tokens_acc(s.drop_first(), cur.push(s[0]), acc)
    }
}

/// The whitespace-separated words of `s`, in order, each nonempty.
pub open spec fn spec_tokens(s: Seq<char>) -> Seq<Seq<char>> {
    spec_tokens_acc(s, Seq::empty(), Seq::empty())
}

/// The texts that a sequence of character spans cuts out of `s`.
pub open spec fn spec_span_texts(s: Seq<char>, spans: Seq<(usize, usize)>) -> Seq<Seq<char>> {
    Seq::new(spans.len(), |j: int| s.subrange(spans[j].0 as int, spans[j].1 as int))
}

/// Finds the whitespace-separated words of `s` as character spans
/// (start, end), in order: the texts of the spans are exactly
/// [`spec_tokens`] of the input.
pub fn tokenize_spans(s: &str) -> (spans: Vec<(usize, usize)>)
    ensures
        spec_span_texts(s@, spans@) == spec_tokens(s@),
        forall|j: int| 0 <= j < spans@.len() ==> (#[trigger] spans@[j]).0 < spans@[j].1 <= s@.len(),
{
    let n: usize = s.unicode_len();
    let mut spans: Vec<(usize, usize)> = Vec::new();
    let mut in_token: bool = false;
    let mut cur_start: usize = 0;
    let mut i: usize = 0;
    proof {
        assert(s@.skip(0) =~= s@);
        assert(spec_span_texts(s@, spans@) =~= Seq::<Seq<char>>::empty());
    }
    while i < n
        invariant
            i <= n,
            n == s@.len(),
            in_token ==> cur_start < i,
            forall|j: int| 0 <= j < spans@.len() ==> (#[trigger] spans@[j]).0 < spans@[j].1 <= i,
            spec_tokens_acc(
                s@.skip(i as int),
                if in_token {
                    s@.subrange(cur_start as int, i as int)
                } else {
                    Seq::empty()
                },
                spec_span_texts(s@, spans@),
            ) == spec_tokens(s@),
        decreases n - i,
    {
        let c = s.get_char(i);
        proof {
            assert(s@.skip(i as int)[0] == s@[i as int]);
            assert(s@.skip(i as int).drop_first() =~= s@.skip(i + 1));
        }
        if is_space(c) {
            if in_token {
                let span = (cur_start, i);
                proof {
                    assert(spec_span_texts(s@, spans@.push(span)) =~= spec_span_texts(
                        s@,
                        spans@,
                    ).push(s@.subrange(cur_start as int, i as int)));
                }
                spans.push(span);
                in_token = false;
            }
        } else {
            if !in_token {
                cur_start = i;
                in_token = true;
            }
            proof {
                assert(Seq::<char>::empty() =~= s@.subrange(i as int, i as int));
                assert(s@.subrange(cur_start as int, i as int).push(s@[i as int]) =~= s@.subrange(
                    cur_start as int,
                    i + 1,
                ));
            }
        }
        i = i + 1;
    }
    proof {
        assert(s@.skip(n as int) =~= Seq::<char>::empty());
    }
    if in_token {
        let span = (cur_start, n);
        proof {
            assert(spec_span_texts(s@, spans@.push(span)) =~= spec_span_texts(s@, spans@).push(
                s@.subrange(cur_start as int, n as int),
            ));
        }
        spans.push(span);
    }
    spans
}

/// Compares the span [a, b) of `s` against the word `kw`.
pub fn span_eq(s: &str, a: usize, b: usize, kw: &str) -> (r: bool)
    requires
        a <= b <= s@.len(),
    ensures
        r == (s@.subrange(a as int, b as int) == kw@),
{
    let kw_len: usize = kw.unicode_len();
    if b - a != kw_len {
        proof {
            assert(s@.subrange(a as int, b as int).len() != kw@.len());
        }
        return false;
    }
    let mut j: usize = 0;
    while j < kw_len
        invariant
            j <= kw_len,
            kw_len == kw@.len(),
            a <= b <= s@.len(),
            b - a == kw_len,
            forall|t: int| 0 <= t < j ==> s@[a + t] == kw@[t],
        decreases kw_len - j,
    {
        if s.get_char(a + j) != kw.get_char(j) {
            proof {
                assert(s@.subrange(a as int, b as int)[j as int] != kw@[j as int]);
            }
            return false;
        }
        j = j + 1;
    }
    proof {
        assert(s@.subrange(a as int, b as int) =~= kw@);
    }
    true
}

/// A decimal digit.
pub open spec fn spec_is_digit(c: char) -> bool {
    '0' <= c <= '9'
}

pub open spec fn spec_all_digits(s: Seq<char>) -> bool {
    forall|i: int| 0 <= i < s.len() ==> spec_is_digit(#[trigger] s[i])
}

/// Value of a digit string, most significant digit first.
pub open spec fn spec_digits_value(s: Seq<char>) -> int
    decreases s.len(),
{
    if s.len() == 0 {
        0
    } else {
        spec_digits_value(s.drop_last()) * 10 + (s.last() as int - 48)
    }
}

/// How an unsigned decimal number is read from a word: an optional
/// leading plus sign, then at least one digit.
pub open spec fn spec_parse_uint(s: Seq<char>) -> Option<int> {
    let digits = if s.len() > 0 && s[0] == '+' {
        s.drop_first()
    } else {
        s
    };
    if digits.len() > 0 && spec_all_digits(digits) {
        Some(spec_digits_value(digits))
    } else {
        None
    }
}

/// A 16-bit number: a well-formed digit string whose value fits.
pub open spec fn spec_parse_u16(s: Seq<char>) -> Option<u16> {
    match spec_parse_uint(s) {
        None => None,
        Some(v) => if v <= 65535 {
            Some(v as u16)
        } else {
            None
        },
    }
}

/// An 8-bit number: a well-formed digit string whose value fits.
pub open spec fn spec_parse_u8(s: Seq<char>) -> Option<u8> {
    match spec_parse_uint(s) {
        None => None,
        Some(v) => if v <= 255 {
            Some(v as u8)
        } else {
            None
        },
    }
}

proof fn lemma_digits_value_nonneg(s: Seq<char>)
    requires
        spec_all_digits(s),
    ensures
        spec_digits_value(s) >= 0,
    decreases s.len(),
{
    if s.len() > 0 {
        assert(spec_all_digits(s.drop_last()));
        lemma_digits_value_nonneg(s.drop_last());
    }
}

/// More digits never shrink the value: the value of a digit string is at
/// least the value of any of its prefixes.
proof fn lemma_digits_value_prefix(s: Seq<char>, i: int)
    requires
        spec_all_digits(s),
        0 <= i <= s.len(),
    ensures
        spec_digits_value(s) >= spec_digits_value(s.take(i)),
    decreases s.len() - i,
{
    if i < s.len() {
        assert(s.take(i + 1).drop_last() =~= s.take(i));
        assert(spec_all_digits(s.take(i)));
        lemma_digits_value_nonneg(s.take(i));
        assert(spec_digits_value(s.take(i + 1)) >= spec_digits_value(s.take(i)));
        lemma_digits_value_prefix(s, i + 1);
        assert(s.take(s.len() as int) =~= s);
    } else {
        assert(s.take(s.len() as int) =~= s);
    }
}

/// Reads the span [a, b) of `s` as an unsigned decimal number no larger
/// than `bound`, exactly as the standard number parser would: an optional
/// plus sign, then digits; anything else, or a value beyond the bound,
/// is rejected.
fn parse_bounded_span(s: &str, a: usize, b: usize, bound: u32) -> (r: Option<u32>)
    requires
        a <= b <= s@.len(),
        bound <= 65535,
    ensures
        ({
            let parsed = spec_parse_uint(s@.subrange(a as int, b as int));
            match r {
                Some(v) => parsed == Some(v as int) && v <= bound,
                None => parsed is None || (parsed matches Some(pv) && pv > bound),
            }
        }),
{
    let ghost whole = s@.subrange(a as int, b as int);
    let mut j: usize = a;
    if j < b && s.get_char(j) == '+' {
        j = j + 1;
    }
    let ghost digits = if whole.len() > 0 && whole[0] == '+' {
        whole.drop_first()
    } else {
        whole
    };
    proof {
        assert(digits =~= s@.subrange(j as int, b as int));
    }
    if j == b {
        return None;
    }
    let ghost start = j as int;
    let mut acc: u32 = 0;
    while j < b
        invariant
            a <= b <= s@.len(),
            0 <= start <= j <= b,
            b - start == digits.len(),
            digits =~= s@.subrange(start, b as int),
            digits == ({
                let w = s@.subrange(a as int, b as int);
                if w.len() > 0 && w[0] == '+' {
                    w.drop_first()
                } else {
                    w
                }
            }),
            bound <= 65535,
            acc <= bound,
            spec_all_digits(digits.take(j - start)),
            acc == spec_digits_value(digits.take(j - start)),
        decreases b - j,
    {
        let c = s.get_char(j);
        if c < '0' || c > '9' {
            proof {
                assert(digits[j - start] == c);
                assert(!spec_all_digits(digits));
            }
            return None;
        }
        let d: u32 = (c as u32) - 48;
        let next: u32 = acc * 10 + d;
        proof {
            assert(digits.take(j - start + 1).drop_last() =~= digits.take(j - start));
            assert(digits.take(j - start + 1).last() == c);
        }
        if next > bound {
            proof {
                if spec_all_digits(digits) {
                    lemma_digits_value_prefix(digits, j - start + 1);
                }
            }
            return None;
        }
        acc = next;
        j = j + 1;
    }
    proof {
        assert(digits.take(digits.len() as int) =~= digits);
    }
    Some(acc)
}

/// Reads the span [a, b) of `s` as a 16-bit decimal number.
pub fn parse_u16_span(s: &str, a: usize, b: usize) -> (r: Option<u16>)
    requires
        a <= b <= s@.len(),
    ensures
        r == spec_parse_u16(s@.subrange(a as int, b as int)),
{
    match parse_bounded_span(s, a, b, 65535) {
        Some(v) => Some(v as u16),
        None => None,
    }
}

/// Reads the span [a, b) of `s` as an 8-bit decimal number.
pub fn parse_u8_span(s: &str, a: usize, b: usize) -> (r: Option<u8>)
    requires
        a <= b <= s@.len(),
    ensures
        r == spec_parse_u8(s@.subrange(a as int, b as int)),
{
    match parse_bounded_span(s, a, b, 255) {
        Some(v) => Some(v as u8),
        None => None,
    }
}

/// Command words joined by single spaces.
pub open spec fn spec_join_spaces(toks: Seq<Seq<char>>) -> Seq<char>
    decreases toks.len(),
{
    if toks.len() == 0 {
        Seq::empty()
    } else if toks.len() == 1 {
        toks[0]
    } else {
        spec_join_spaces(toks.drop_last()) + seq![' '] + toks.last()
    }
}

/// Joins the words cut out by `spans[from..]` with single spaces.
pub fn join_spans(s: &str, spans: &Vec<(usize, usize)>, from: usize) -> (out: String)
    requires
        from <= spans@.len(),
        forall|j: int| 0 <= j < spans@.len() ==> (#[trigger] spans@[j]).0 <= spans@[j].1
            <= s@.len(),
    ensures
        out@ == spec_join_spaces(
            spec_span_texts(s@, spans@).subrange(from as int, spans@.len() as int),
        ),
{
    let ghost texts = spec_span_texts(s@, spans@);
    let mut out = String::new();
    let mut idx: usize = from;
    proof {
        assert(texts.subrange(from as int, from as int) =~= Seq::<Seq<char>>::empty());
    }
    while idx < spans.len()
        invariant
            from <= idx <= spans@.len(),
            texts == spec_span_texts(s@, spans@),
            forall|j: int| 0 <= j < spans@.len() ==> (#[trigger] spans@[j]).0 <= spans@[j].1
                <= s@.len(),
            out@ == spec_join_spaces(texts.subrange(from as int, idx as int)),
        decreases spans@.len() - idx,
    {
        let (a, b) = spans[idx];
        if idx > from {
            out.append(" ");
            proof {
                reveal_strlit(" ");
            }
        }
        let word = s.substring_char(a, b);
        out.append(word);
        proof {
            assert(texts.subrange(from as int, idx + 1).drop_last() =~= texts.subrange(
                from as int,
                idx as int,
            ));
            assert(texts.subrange(from as int, idx + 1).last() == texts[idx as int]);
            if idx > from {
                assert(out@ =~= spec_join_spaces(texts.subrange(from as int, idx as int))
                    + seq![' '] + texts[idx as int]);
            } else {
                assert(out@ =~= texts[idx as int]);
            }
        }
        idx = idx + 1;
    }
    out
}

/// The command words the MTU console understands, in the order its help
/// lists them.
pub open spec fn spec_available_commands() -> Seq<Seq<char>> {
    seq![
        "help"@,
        "version"@,
        "status"@,
        "uptime"@,
        "clear"@,
        "reset"@,
        "echo"@,
        "led_on"@,
        "led_off"@,
        "button"@,
        "temp"@,
        "bt_scan"@,
        "mtu_start"@,
        "mtu_stop"@,
        "mtu_status"@,
    ]
}

/// The commands of `cmds` that begin with `p`, in order.
pub open spec fn spec_matching_commands(cmds: Seq<Seq<char>>, p: Seq<char>) -> Seq<Seq<char>>
    decreases cmds.len(),
{
    if cmds.len() == 0 {
        Seq::empty()
    } else {
        spec_matching_commands(cmds.drop_last(), p) + if p.is_prefix_of(cmds.last()) {
            seq![cmds.last()]
        } else {
            Seq::empty()
        }
    }
}

/// The completion list holds at most this many entries; matches beyond
/// it are dropped.
pub const AUTOCOMPLETE_LIMIT: usize = 10;

/// The first [`AUTOCOMPLETE_LIMIT`] of a sequence of matching commands.
pub open spec fn spec_truncate_matches(found: Seq<Seq<char>>) -> Seq<Seq<char>> {
    if found.len() <= AUTOCOMPLETE_LIMIT {
        found
    } else {
        found.take(AUTOCOMPLETE_LIMIT as int)
    }
}

/// What autocompletion offers for the prefix `p`: the known command
/// words beginning with `p`, in list order, truncated to the first
/// [`AUTOCOMPLETE_LIMIT`] matches.
pub open spec fn spec_autocomplete(p: Seq<char>) -> Seq<Seq<char>> {
    spec_truncate_matches(spec_matching_commands(spec_available_commands(), p))
}

/// Whether `p` is a prefix of `s`.
fn str_starts_with(s: &str, p: &str) -> (r: bool)
    ensures
        r == p@.is_prefix_of(s@),
{
    let p_len: usize = p.unicode_len();
    let s_len: usize = s.unicode_len();
    if p_len > s_len {
        return false;
    }
    let mut j: usize = 0;
    while j < p_len
        invariant
            j <= p_len,
            p_len == p@.len(),
            s_len == s@.len(),
            p_len <= s_len,
            forall|t: int| 0 <= t < j ==> p@[t] == s@[t],
        decreases p_len - j,
    {
        if s.get_char(j) != p.get_char(j) {
            proof {
                assert(!(p@ =~= s@.subrange(0, p@.len() as int)));
            }
            return false;
        }
        j = j + 1;
    }
    proof {
        assert(p@ =~= s@.subrange(0, p@.len() as int));
    }
    true
}

/// Whether the parse result `r` is what the command grammar assigns to
/// the word sequence `toks`.
///
/// The first word picks the command. `bt_scan` and `mtu_start` take an
/// optional duration in seconds, bounded to 1–60 and 1–300; `led_on` and
/// `led_off` need an indicator number 3 or 4; `echo` carries the rest of
/// the words joined by single spaces; anything unrecognized, or a
/// recognized command with a bad argument, becomes `Unknown` with the
/// offending word or a diagnostic text. Extra words after a complete
/// command are ignored.
pub open spec fn spec_cli_parse(toks: Seq<Seq<char>>, r: CliCommand) -> bool {
    if toks.len() == 0 {
        r is Empty
    } else {
        let cmd = toks[0];
        if cmd == "help"@ {
            r is Help
        } else if cmd == "version"@ {
            r is Version
        } else if cmd == "status"@ {
            r is Status
        } else if cmd == "uptime"@ {
            r is Uptime
        } else if cmd == "clear"@ {
            r is Clear
        } else if cmd == "reset"@ {
            r is Reset
        } else if cmd == "button"@ {
            r is Button
        } else if cmd == "temp"@ {
            r is Temp
        } else if cmd == "bt_scan"@ {
            if toks.len() == 1 {
                r matches CliCommand::BtScan(t) && t is None
            } else {
                match spec_parse_u16(toks[1]) {
                    Some(t) => if 1 <= t <= 60 {
                        r matches CliCommand::BtScan(arg) && arg == Some(t)
                    } else {
                        r matches CliCommand::Unknown(m) && m@
                            == "bt_scan: scan time must be 1-60 seconds"@
                    },
                    None => r matches CliCommand::Unknown(m) && m@
                        == "bt_scan: invalid scan time"@,
                }
            }
        } else if cmd == "mtu_start"@ {
            if toks.len() == 1 {
                r matches CliCommand::MtuStart(t) && t is None
            } else {
                match spec_parse_u16(toks[1]) {
                    Some(t) => if 1 <= t <= 300 {
                        r matches CliCommand::MtuStart(arg) && arg == Some(t)
                    } else {
                        r matches CliCommand::Unknown(m) && m@
                            == "mtu_start: duration must be 1-300 seconds"@
                    },
                    None => r matches CliCommand::Unknown(m) && m@
                        == "mtu_start: invalid duration"@,
                }
            }
        } else if cmd == "mtu_stop"@ {
            r is MtuStop
        } else if cmd == "mtu_status"@ {
            r is MtuStatus
        } else if cmd == "echo"@ {
            r matches CliCommand::Echo(t) && t@ == spec_join_spaces(toks.drop_first())
        } else if cmd == "led_on"@ {
            if toks.len() == 1 {
                r matches CliCommand::Unknown(m) && m@ == "led_on: Missing LED number"@
            } else {
                match spec_parse_u8(toks[1]) {
                    Some(n) => if n == 3 || n == 4 {
                        r matches CliCommand::LedOn(led) && led == n
                    } else {
                        r matches CliCommand::Unknown(m) && m@ == "led_on: LED must be 3 or 4"@
                    },
                    None => r matches CliCommand::Unknown(m) && m@
                        == "led_on: Invalid LED number"@,
                }
            }
        } else if cmd == "led_off"@ {
            if toks.len() == 1 {
                r matches CliCommand::Unknown(m) && m@ == "led_off: Missing LED number"@
            } else {
                match spec_parse_u8(toks[1]) {
                    Some(n) => if n == 3 || n == 4 {
                        r matches CliCommand::LedOff(led) && led == n
                    } else {
                        r matches CliCommand::Unknown(m) && m@ == "led_off: LED must be 3 or 4"@
                    },
                    None => r matches CliCommand::Unknown(m) && m@
                        == "led_off: Invalid LED number"@,
                }
            }
        } else {
            r matches CliCommand::Unknown(m) && m@ == cmd
        }
    }
}

/// Parses MTU console command lines.
pub struct CommandParser;

impl CommandParser {
    pub fn new() -> (p: CommandParser) {
        CommandParser
    }

    /// The command words the MTU console understands.
    pub fn get_available_commands() -> (cmds: Vec<&'static str>)
        ensures
            cmds.deep_view() == spec_available_commands(),
    {
        let mut cmds: Vec<&'static str> = Vec::new();
        cmds.push("help");
        cmds.push("version");
        cmds.push("status");
        cmds.push("uptime");
        cmds.push("clear");
        cmds.push("reset");
        cmds.push("echo");
        cmds.push("led_on");
        cmds.push("led_off");
        cmds.push("button");
        cmds.push("temp");
        cmds.push("bt_scan");
        cmds.push("mtu_start");
        cmds.push("mtu_stop");
        cmds.push("mtu_status");
        proof {
            assert(cmds.deep_view() =~~= spec_available_commands());
        }
        cmds
    }

    /// The known command words that begin with `partial`, in list order,
    /// truncated to the first [`AUTOCOMPLETE_LIMIT`] matches: the
    /// completion list holds that many entries and later matches are
    /// dropped.
    pub fn autocomplete(partial: &str) -> (matches: Vec<&'static str>)
        ensures
            matches.deep_view() == spec_autocomplete(partial@),
    {
        let commands = Self::get_available_commands();
        let mut matches: Vec<&'static str> = Vec::new();
        let ghost all = spec_available_commands();
        let mut i: usize = 0;
        proof {
            assert(all.subrange(0, 0) =~= Seq::<Seq<char>>::empty());
        }
        while i < commands.len()
            invariant
                i <= commands@.len(),
                commands.deep_view() == all,
                all.len() == commands@.len(),
                matches@.len() == matches.deep_view().len(),
                ({
                    let found = spec_matching_commands(all.subrange(0, i as int), partial@);
                    matches.deep_view() =~~= spec_truncate_matches(found)
                }),
            decreases commands@.len() - i,
        {
            let cmd = commands[i];
            proof {
                assert(all.subrange(0, i + 1).drop_last() =~= all.subrange(0, i as int));
                assert(all.subrange(0, i + 1).last() == all[i as int]);
                assert(cmd@ == all[i as int]);
            }
            if str_starts_with(cmd, partial) && matches.len() < AUTOCOMPLETE_LIMIT {
                matches.push(cmd);
            }
            proof {
                let found = spec_matching_commands(all.subrange(0, i as int), partial@);
                let extended = spec_matching_commands(all.subrange(0, i + 1), partial@);
                if partial@.is_prefix_of(all[i as int]) {
                    assert(extended =~~= found.push(all[i as int]));
                    if found.len() >= AUTOCOMPLETE_LIMIT {
                        assert(spec_truncate_matches(extended) =~~= spec_truncate_matches(found));
                    }
                } else {
                    assert(extended =~~= found);
                }
                assert(matches.deep_view() =~~= spec_truncate_matches(extended));
            }
            i = i + 1;
        }
        proof {
            assert(all.subrange(0, all.len() as int) =~= all);
        }
        matches
    }

    /// Parses one console line; see [`spec_cli_parse`] for the grammar.
    pub fn parse_command(input: &str) -> (r: CliCommand)
        ensures
            spec_cli_parse(spec_tokens(input@), r),
    {
        let spans = tokenize_spans(input);
        let ghost toks = spec_tokens(input@);
        if spans.len() == 0 {
            return CliCommand::Empty;
        }
        let (a0, b0) = spans[0];

        if span_eq(input, a0, b0, "help") {
            CliCommand::Help
        } else if span_eq(input, a0, b0, "version") {
            CliCommand::Version
        } else if span_eq(input, a0, b0, "status") {
            CliCommand::Status
        } else if span_eq(input, a0, b0, "uptime") {
            CliCommand::Uptime
        } else if span_eq(input, a0, b0, "clear") {
            CliCommand::Clear
        } else if span_eq(input, a0, b0, "reset") {
            CliCommand::Reset
        } else if span_eq(input, a0, b0, "button") {
            CliCommand::Button
        } else if span_eq(input, a0, b0, "temp") {
            CliCommand::Temp
        } else if span_eq(input, a0, b0, "bt_scan") {
            if spans.len() >= 2 {
                let (a1, b1) = spans[1];
                match parse_u16_span(input, a1, b1) {
                    Some(scan_time) => {
                        if scan_time > 0 && scan_time <= 60 {
                            CliCommand::BtScan(Some(scan_time))
                        } else {
                            CliCommand::Unknown(
                                String::from_str("bt_scan: scan time must be 1-60 seconds"),
                            )
                        }
                    },
                    None => CliCommand::Unknown(String::from_str("bt_scan: invalid scan time")),
                }
            } else {
                CliCommand::BtScan(None)
            }
        } else if span_eq(input, a0, b0, "mtu_start") {
            if spans.len() >= 2 {
                let (a1, b1) = spans[1];
                match parse_u16_span(input, a1, b1) {
                    Some(duration) => {
                        if duration > 0 && duration <= 300 {
                            CliCommand::MtuStart(Some(duration))
                        } else {
                            CliCommand::Unknown(
                                String::from_str("mtu_start: duration must be 1-300 seconds"),
                            )
                        }
                    },
                    None => CliCommand::Unknown(String::from_str("mtu_start: invalid duration")),
                }
            } else {
                CliCommand::MtuStart(None)
            }
        } else if span_eq(input, a0, b0, "mtu_stop") {
            CliCommand::MtuStop
        } else if span_eq(input, a0, b0, "mtu_status") {
            CliCommand::MtuStatus
        } else if span_eq(input, a0, b0, "echo") {
            let joined = join_spans(input, &spans, 1);
            proof {
                assert(spec_span_texts(input@, spans@).subrange(1, spans@.len() as int)
                    =~= toks.drop_first());
            }
            CliCommand::Echo(joined)
        } else if span_eq(input, a0, b0, "led_on") {
            if spans.len() >= 2 {
                let (a1, b1) = spans[1];
                match parse_u8_span(input, a1, b1) {
                    Some(led_num) => {
                        if led_num == 3 || led_num == 4 {
                            CliCommand::LedOn(led_num)
                        } else {
                            CliCommand::Unknown(String::from_str("led_on: LED must be 3 or 4"))
                        }
                    },
                    None => CliCommand::Unknown(String::from_str("led_on: Invalid LED number")),
                }
            } else {
                CliCommand::Unknown(String::from_str("led_on: Missing LED number"))
            }
        } else if span_eq(input, a0, b0, "led_off") {
            if spans.len() >= 2 {
                let (a1, b1) = spans[1];
                match parse_u8_span(input, a1, b1) {
                    Some(led_num) => {
                        if led_num == 3 || led_num == 4 {
                            CliCommand::LedOff(led_num)
                        } else {
                            CliCommand::Unknown(String::from_str("led_off: LED must be 3 or 4"))
                        }
                    },
                    None => CliCommand::Unknown(String::from_str("led_off: Invalid LED number")),
                }
            } else {
                CliCommand::Unknown(String::from_str("led_off: Missing LED number"))
            }
        } else {
            let cmd_text = input.substring_char(a0, b0);
            CliCommand::Unknown(String::from_str(cmd_text))
        }
    }
}

} // verus!
