use vstd::prelude::*;

use crate::meter::config::spec_framing_of;
use crate::meter::config::MeterConfig;
use crate::meter::config::MeterType;
use crate::meter::handler::spec_response_bits;
use crate::meter::pump::spec_pump_step;
use crate::meter::pump::MeterPump;
use crate::meter::pump::PULSE_TIMEOUT_MICROS;
use crate::meter::pump::PumpModel;
use crate::mtu::config::spec_bits_per_frame;
use crate::mtu::config::MtuConfig;
use crate::mtu::error::MtuError;
use crate::mtu::error::MtuResult;
use crate::mtu::queue::BitQueue;
use crate::mtu::queue::BIT_QUEUE_CAPACITY;
use crate::mtu::reassembler::lemma_run_concat;
use crate::mtu::reassembler::spec_run;
use crate::mtu::reassembler::spec_sealed_message;
use crate::mtu::reassembler::spec_step;
use crate::mtu::reassembler::Reassembler;
use crate::mtu::reassembler::ReassemblerModel;
use crate::mtu::uart_framing::spec_encode;

verus! {

/// One diagnostic event of an MTU transaction, stamped with the clock
/// cycle it belongs to and the time since the previous cycle.
///
/// The tasks on the critical timing path emit these; a lower-priority
/// collaborator turns them into indicator and log output.
#[derive(Debug, Clone, Copy, PartialEq, Eq, Structural)]
pub struct MtuEvent {
    pub clock_cycle: u64,
    pub event_type: MtuEventType,
    pub time_delta_micros: u64,
}

/// What happened at one point of an MTU transaction.
#[derive(Debug, Clone, Copy, PartialEq, Eq, Structural)]
pub enum MtuEventType {
    /// A transaction began.
    OperationStart,
    /// A transaction ended.
    OperationEnd,
    /// One clock cycle completed and sampled `bit_value` off the data line.
    ClockCycle { bit_value: u8 },
    /// A frame decoded to a character and it joined the message buffer.
    CharacterReceived { ch: char, ascii: u8, message_len: usize },
    /// A carriage return sealed the message.
    MessageComplete { length: usize },
    /// The transaction stopped with characters gathered but no carriage
    /// return seen.
    PartialMessage { length: usize },
    /// A gathered frame failed validation; the fields carry its triage
    /// data, zeroed when fewer than ten bits were gathered.
    FramingError {
        error_type: MtuError,
        frame_bits_len: usize,
        start_bit: u8,
        parity_bit: u8,
        stop_bit: u8,
        data_ones_count: usize,
        expected_parity: u8,
    },
    /// The clock line went HIGH.
    ClockHigh,
    /// The clock line went LOW.
    ClockLow,
    /// The data line sampled this bit value.
    DataBit(u8),
}

/// Copies a byte string.
fn copy_bytes(v: &Vec<u8>) -> (r: Vec<u8>)
    ensures
        r@ == v@,
{
    let mut r: Vec<u8> = Vec::new();
    let mut i: usize = 0;
    while i < v.len()
        invariant
            i <= v@.len(),
            r@ == v@.subrange(0, i as int),
        decreases v@.len() - i,
    {
        r.push(v[i]);
        i = i + 1;
    }
    proof {
        assert(r@ == v@);
    }
    r
}

/// Byte-exact comparison of two byte strings.
fn bytes_equal(a: &Vec<u8>, b: &Vec<u8>) -> (r: bool)
    ensures
        r == (a@ == b@),
{
    if a.len() != b.len() {
        return false;
    }
    let mut i: usize = 0;
    while i < a.len()
        invariant
            i <= a@.len(),
            a@.len() == b@.len(),
            forall|j: int| 0 <= j < i ==> a@[j] == b@[j],
        decreases a@.len() - i,
    {
        if a[i] != b[i] {
            return false;
        }
        i = i + 1;
    }
    proof {
        assert(a@ =~= b@);
    }
    true
}

/// Feeds the reassembler everything the queue holds, oldest bit first,
/// stopping early once a carriage return seals the message. The outcome
/// is exactly the queue contents folded through the reassembler step, in
/// sampling order — stopping early changes nothing, because a sealed
/// reassembler ignores all further input.
fn drain_queue(queue: &mut BitQueue, reassembler: &mut Reassembler)
    requires
        old(reassembler)@.wf(),
    ensures
        final(reassembler)@.wf(),
        final(reassembler)@ == spec_run(old(reassembler)@, old(queue)@),
        final(queue).spec_capacity() == old(queue).spec_capacity(),
        final(queue)@.len() == 0 || final(reassembler)@.complete,
{
    loop
        invariant
            reassembler@.wf(),
            queue.spec_capacity() == old(queue).spec_capacity(),
            spec_run(reassembler@, queue@) == spec_run(old(reassembler)@, old(queue)@),
        ensures
            queue@.len() == 0 || reassembler@.complete,
            spec_run(reassembler@, queue@) == spec_run(old(reassembler)@, old(queue)@),
        decreases queue@.len(),
    {
        if reassembler.is_complete() {
            break;
        }
        match queue.try_receive() {
            None => {
                break;
            },
            Some(bit) => {
                let _event = reassembler.on_bit(bit);
            },
        }
    }
    proof {
        if reassembler@.complete {
            crate::mtu::reassembler::lemma_complete_is_stable(reassembler@, queue@);
        } else {
            assert(queue@ =~= Seq::<u8>::empty());
        }
    }
}

/// Joint state of the simulated link during one transaction: the METER's
/// bit-pump, the data-line level, and the MTU's reassembler. The bit
/// queue does not appear: the reassembler drains it within every cycle,
/// so it is empty on each cycle boundary.
#[verifier::ext_equal]
pub ghost struct LinkState {
    pub pump: PumpModel,
    pub line: u8,
    pub reass: ReassemblerModel,
}

/// One clock cycle of the link at time `now`: the MTU samples the data
/// line at the cycle midpoint and the reassembler consumes exactly that
/// sample; the rising edge then reaches the METER — if it is enabled —
/// which may drive a new level for the next cycle's sample.
pub open spec fn spec_link_cycle(s: LinkState, enabled: bool, now: int) -> LinkState {
    let reass = spec_step(s.reass, s.line).0;
    let stepped = spec_pump_step(s.pump, now);
    let pump = if enabled {
        stepped.0
    } else {
        s.pump
    };
    let line = if enabled {
        match stepped.1 {
            Some(level) => level,
            None => s.line,
        }
    } else {
        s.line
    };
    LinkState { pump, line, reass }
}

/// The link state after the first `k` cycles of a transaction whose
/// rising edge `i` falls at time `base + i * bit`.
pub open spec fn spec_link_run(s: LinkState, enabled: bool, base: int, bit: int, k: int) -> LinkState
    decreases k,
{
    if k <= 0 {
        s
    } else {
        spec_link_cycle(spec_link_run(s, enabled, base, bit, k - 1), enabled, base + k * bit)
    }
}

/// The samples the MTU takes at the midpoints of the first `k` cycles:
/// the data-line level at each cycle's start, in cycle order.
pub open spec fn spec_link_samples(s: LinkState, enabled: bool, base: int, bit: int, k: int) -> Seq<
    u8,
>
    decreases k,
{
    if k <= 0 {
        Seq::empty()
    } else {
        spec_link_samples(s, enabled, base, bit, k - 1).push(
            spec_link_run(s, enabled, base, bit, k - 1).line,
        )
    }
}

/// Feeding one more bit extends a reassembler run by one step.
proof fn lemma_run_push(r: ReassemblerModel, s: Seq<u8>, b: u8)
    ensures
        spec_run(r, s.push(b)) == spec_step(spec_run(r, s), b).0,
    decreases s.len(),
{
    reveal_with_fuel(spec_run, 3);
    if s.len() == 0 {
        assert(s.push(b).drop_first() =~= Seq::<u8>::empty());
    } else {
        lemma_run_push(spec_step(r, s[0]).0, s.drop_first(), b);
        assert(s.push(b).drop_first() =~= s.drop_first().push(b));
        assert(s.push(b)[0] == s[0]);
    }
}

/// Sampler ordering: over a transaction of `k` cycles, in which no queue
/// entry is ever dropped, the reassembler's input is exactly the sequence
/// of data-line samples at the midpoints of cycles 1 through `k`, in
/// that order.
pub proof fn lemma_sampler_ordering(s: LinkState, enabled: bool, base: int, bit: int, k: int)
    requires
        k >= 0,
    ensures
        spec_link_run(s, enabled, base, bit, k).reass == spec_run(
            s.reass,
            spec_link_samples(s, enabled, base, bit, k),
        ),
    decreases k,
{
    if k > 0 {
        lemma_sampler_ordering(s, enabled, base, bit, k - 1);
        lemma_run_push(
            s.reass,
            spec_link_samples(s, enabled, base, bit, k - 1),
            spec_link_run(s, enabled, base, bit, k - 1).line,
        );
    }
}

/// The byte values of a telegram's characters.
pub open spec fn spec_telegram_bytes(msg: Seq<char>) -> Seq<u8> {
    msg.map_values(|c: char| c as u8)
}

/// Decoding a carriage-return-free telegram prefix: its response-bit
/// buffer, fed to a fresh reassembler, accumulates exactly its characters
/// and leaves the reassembler hunting and unsealed.
proof fn lemma_telegram_prefix(msg: Seq<char>, t: MeterType)
    requires
        vstd::utf8::is_ascii_chars(msg),
        msg.len() < crate::mtu::reassembler::MAX_MESSAGE_LEN,
        forall|i: int| 0 <= i < msg.len() ==> msg[i] != '\r',
    ensures
        spec_run(
            ReassemblerModel::init(spec_framing_of(t)),
            spec_response_bits(msg, t),
        ) == (ReassemblerModel {
            framing: spec_framing_of(t),
            hunting: true,
            frame_bits: Seq::empty(),
            message: spec_telegram_bytes(msg),
            complete: false,
        }),
    decreases msg.len(),
{
    let f = spec_framing_of(t);
    let init = ReassemblerModel::init(f);
    if msg.len() == 0 {
        assert(spec_response_bits(msg, t) =~= Seq::<u8>::empty());
        assert(init =~= (ReassemblerModel {
            framing: f,
            hunting: true,
            frame_bits: Seq::empty(),
            message: spec_telegram_bytes(msg),
            complete: false,
        })) by {
            assert(spec_telegram_bytes(msg) =~= Seq::<u8>::empty());
        }
    } else {
        let head = msg.drop_last();
        let c = msg.last();
        assert(forall|i: int| 0 <= i < head.len() ==> head[i] == msg[i]);
        lemma_telegram_prefix(head, t);
        let mid = ReassemblerModel {
            framing: f,
            hunting: true,
            frame_bits: Seq::empty(),
            message: spec_telegram_bytes(head),
            complete: false,
        };
        assert(mid.wf()) by {
            assert(forall|i: int|
                0 <= i < head.len() ==> (#[trigger] spec_telegram_bytes(head)[i]) == head[i] as u8
                    && head[i] as u8 <= 127 && head[i] as u8 != 13);
        }
        lemma_run_concat(init, spec_response_bits(head, t), spec_encode(c as u8, f));
        crate::mtu::reassembler::lemma_frame_decodes(mid, c as u8);
        assert(crate::mtu::reassembler::spec_after_frame(mid, c as u8) =~= (ReassemblerModel {
            framing: f,
            hunting: true,
            frame_bits: Seq::empty(),
            message: spec_telegram_bytes(msg),
            complete: false,
        })) by {
            assert(spec_telegram_bytes(head).push(c as u8) =~= spec_telegram_bytes(msg));
            assert(c as u8 != 13);
        }
    }
}

/// Telegram round trip across the two roles: the response-bit buffer the
/// METER builds for a carriage-return-terminated ASCII telegram, consumed
/// bit by bit by a fresh reassembler, decodes to exactly that telegram
/// and seals the message — nothing lost, nothing added, in order.
pub proof fn lemma_telegram_decodes(msg: Seq<char>, t: MeterType)
    requires
        vstd::utf8::is_ascii_chars(msg),
        0 < msg.len() <= crate::mtu::reassembler::MAX_MESSAGE_LEN,
        msg.last() == '\r',
        forall|i: int| 0 <= i < msg.len() - 1 ==> msg[i] != '\r',
    ensures
        spec_run(
            ReassemblerModel::init(spec_framing_of(t)),
            spec_response_bits(msg, t),
        ) == (ReassemblerModel {
            framing: spec_framing_of(t),
            hunting: true,
            frame_bits: Seq::empty(),
            message: spec_telegram_bytes(msg),
            complete: true,
        }),
{
    let f = spec_framing_of(t);
    let init = ReassemblerModel::init(f);
    let head = msg.drop_last();
    assert(forall|i: int| 0 <= i < head.len() ==> head[i] == msg[i]);
    lemma_telegram_prefix(head, t);
    let mid = ReassemblerModel {
        framing: f,
        hunting: true,
        frame_bits: Seq::empty(),
        message: spec_telegram_bytes(head),
        complete: false,
    };
    assert(mid.wf()) by {
        assert(forall|i: int|
            0 <= i < head.len() ==> (#[trigger] spec_telegram_bytes(head)[i]) == head[i] as u8
                && head[i] as u8 <= 127 && head[i] as u8 != 13);
    }
    lemma_run_concat(init, spec_response_bits(head, t), spec_encode('\r' as u8, f));
    crate::mtu::reassembler::lemma_frame_decodes(mid, '\r' as u8);
    assert(crate::mtu::reassembler::spec_after_frame(mid, '\r' as u8) =~= (ReassemblerModel {
        framing: f,
        hunting: true,
        frame_bits: Seq::empty(),
        message: spec_telegram_bytes(msg),
        complete: true,
    })) by {
        assert(spec_telegram_bytes(head).push('\r' as u8) =~= spec_telegram_bytes(msg));
    }
}

/// A sealed reassembler stays sealed through any further link cycles.
proof fn lemma_link_complete_monotone(
    s: LinkState,
    enabled: bool,
    base: int,
    bit: int,
    k1: int,
    k2: int,
)
    requires
        0 <= k1 <= k2,
        spec_link_run(s, enabled, base, bit, k1).reass.complete,
    ensures
        spec_link_run(s, enabled, base, bit, k2).reass.complete,
    decreases k2 - k1,
{
    if k2 > k1 {
        lemma_link_complete_monotone(s, enabled, base, bit, k1, k2 - 1);
    }
}

/// The link state a transaction starts from: the METER idle with its
/// response buffer built and `p0` wake pulses already counted, the data
/// line at idle HIGH, the reassembler fresh.
pub open spec fn spec_link_init(msg: Seq<char>, t: MeterType, last0: int, p0: int) -> LinkState {
    LinkState {
        pump: PumpModel {
            response_bits: spec_response_bits(msg, t),
            bit_index: 0,
            pulse_count: p0,
            transmitting: false,
            last_pulse_micros: last0,
        },
        line: 1,
        reass: ReassemblerModel::init(spec_framing_of(t)),
    }
}

/// The character frames of a nonempty telegram end with a stop bit.
proof fn lemma_response_bits_shape(msg: Seq<char>, t: MeterType)
    requires
        msg.len() > 0,
    ensures
        spec_response_bits(msg, t).len() >= 10,
        spec_response_bits(msg, t).last() == 1,
{
    let f = spec_framing_of(t);
    let e = spec_encode(msg.last() as u8, f);
    assert(e.len() == spec_bits_per_frame(f));
    assert(e.last() == 1);
    assert(spec_response_bits(msg, t).last() == e.last());
}

/// Every character frame has the same width, so the buffer's length is
/// the telegram length times the frame width.
proof fn lemma_response_bits_len(msg: Seq<char>, t: MeterType)
    ensures
        spec_response_bits(msg, t).len() == msg.len() * spec_bits_per_frame(spec_framing_of(t)),
    decreases msg.len(),
{
    let flen = spec_bits_per_frame(spec_framing_of(t));
    if msg.len() == 0 {
        assert(0int * flen == 0) by (nonlinear_arith);
    } else {
        lemma_response_bits_len(msg.drop_last(), t);
        assert((msg.len() - 1) * flen + flen == msg.len() * flen) by (nonlinear_arith);
    }
}

/// The first `m` telegram characters own the first `m` frames of the
/// buffer.
proof fn lemma_response_bits_split(msg: Seq<char>, t: MeterType, m: int)
    requires
        0 <= m <= msg.len(),
    ensures
        spec_response_bits(msg, t).take(m * spec_bits_per_frame(spec_framing_of(t)))
            == spec_response_bits(msg.take(m), t),
    decreases msg.len(),
{
    let flen = spec_bits_per_frame(spec_framing_of(t));
    lemma_response_bits_len(msg, t);
    if m == msg.len() {
        assert(msg.take(m) =~= msg);
        assert(spec_response_bits(msg, t).take(m * flen) =~= spec_response_bits(msg, t));
    } else {
        let head = msg.drop_last();
        lemma_response_bits_len(head, t);
        lemma_response_bits_split(head, t, m);
        assert(m * flen <= head.len() * flen) by (nonlinear_arith)
            requires
                m <= head.len() && flen >= 0,
        ;
        assert(spec_response_bits(msg, t).take(m * flen) =~= spec_response_bits(head, t).take(
            m * flen,
        ));
        assert(head.take(m) =~= msg.take(m));
    }
}

/// No early seal: a proper prefix of a telegram's response-bit buffer
/// never completes the message.
proof fn lemma_no_early_seal(msg: Seq<char>, t: MeterType, j: int)
    requires
        vstd::utf8::is_ascii_chars(msg),
        0 < msg.len() <= crate::mtu::reassembler::MAX_MESSAGE_LEN,
        msg.last() == '\r',
        forall|i: int| 0 <= i < msg.len() - 1 ==> msg[i] != '\r',
        0 <= j < spec_response_bits(msg, t).len(),
    ensures
        !spec_run(
            ReassemblerModel::init(spec_framing_of(t)),
            spec_response_bits(msg, t).take(j),
        ).complete,
{
    let f = spec_framing_of(t);
    let init = ReassemblerModel::init(f);
    let r = spec_response_bits(msg, t);
    let flen = spec_bits_per_frame(f);
    lemma_response_bits_len(msg, t);
    let m = j / flen;
    let p = j % flen;
    vstd::arithmetic::div_mod::lemma_fundamental_div_mod(j, flen);
    vstd::arithmetic::div_mod::lemma_mod_bound(j, flen);
    vstd::arithmetic::div_mod::lemma_div_pos_is_pos(j, flen);
    assert(j == m * flen + p && 0 <= p < flen && m >= 0);
    assert(m < msg.len()) by (nonlinear_arith)
        requires
            j == m * flen + p && 0 <= p < flen && j < msg.len() * flen,
    ;

    // Sub-telegram facts for the first `m` characters.
    let head = msg.take(m);
    assert(forall|i: int| 0 <= i < head.len() ==> head[i] == msg[i]);
    lemma_telegram_prefix(head, t);
    lemma_response_bits_split(msg, t, m);
    let boundary = ReassemblerModel {
        framing: f,
        hunting: true,
        frame_bits: Seq::empty(),
        message: spec_telegram_bytes(head),
        complete: false,
    };
    assert(spec_run(init, r.take(m * flen)) == boundary);

    if p == 0 {
        assert(r.take(j) == r.take(m * flen));
    } else {
        // Within the frame of character `m`: the gathered prefix of one
        // frame never decodes, so it cannot seal anything.
        let c = msg[m];
        let e = spec_encode(c as u8, f);
        lemma_response_bits_split(msg, t, m + 1);
        assert((m + 1) * flen == m * flen + flen) by (nonlinear_arith);
        assert(msg.take(m + 1).drop_last() =~= head);
        assert(msg.take(m + 1).last() == c);
        assert(r.take(m * flen + flen) == spec_response_bits(head, t) + e);
        lemma_response_bits_len(head, t);
        assert(head.len() * flen == m * flen) by (nonlinear_arith)
            requires
                head.len() == m,
        ;
        assert forall|i: int| 0 <= i < j implies r.take(j)[i] == (r.take(m * flen) + e.take(p))[i] by {
            if i >= m * flen {
                assert(r.take(j)[i] == r[i]);
                assert(r[i] == r.take(m * flen + flen)[i]);
                assert((spec_response_bits(head, t) + e)[i] == e[i - m * flen]);
            }
        }
        assert(r.take(j) =~= r.take(m * flen) + e.take(p));
        lemma_run_concat(init, r.take(m * flen), e.take(p));
        assert(boundary.wf()) by {
            assert(forall|i: int|
                0 <= i < head.len() ==> (#[trigger] spec_telegram_bytes(head)[i]) == head[i] as u8
                    && head[i] as u8 <= 127 && head[i] as u8 != 13);
        }
        crate::mtu::reassembler::lemma_frame_prefix_gathers(boundary, c as u8, p);
    }
}

/// Cycle-by-cycle anatomy of one clean transaction against an idle,
/// enabled METER, with the cycle time no longer than the pulse timeout.
/// The wake-up sequence completes on cycle `w`, once the pulse count
/// reaches its threshold of ten; the following cycles shift the response
/// buffer onto the line one bit per cycle, the reassembler one cycle
/// behind the pump; one cycle after the last response bit the METER is
/// idle again, one pulse counted, and the reassembler has consumed
/// exactly the buffer.
#[verifier::rlimit(80)]
proof fn lemma_link_phases(
    msg: Seq<char>,
    t: MeterType,
    last0: int,
    p0: int,
    base: int,
    bit: int,
    k: int,
)
    requires
        vstd::utf8::is_ascii_chars(msg),
        0 < msg.len() <= crate::mtu::reassembler::MAX_MESSAGE_LEN,
        msg.last() == '\r',
        forall|i: int| 0 <= i < msg.len() - 1 ==> msg[i] != '\r',
        1 <= bit <= PULSE_TIMEOUT_MICROS,
        0 <= p0 <= 9,
        k >= 0,
    ensures
        ({
            let r = spec_response_bits(msg, t);
            let n = r.len() as int;
            let w = 10 - p0;
            let init = spec_link_init(msg, t, last0, p0);
            let s = spec_link_run(init, true, base, bit, k);
            if k <= w - 1 {
                s == (LinkState {
                    pump: PumpModel {
                        pulse_count: p0 + k,
                        last_pulse_micros: if k == 0 {
                            last0
                        } else {
                            base + k * bit
                        },
                        ..init.pump
                    },
                    line: 1,
                    reass: init.reass,
                })
            } else if k <= w - 1 + n {
                s == (LinkState {
                    pump: if k == w - 1 + n {
                        PumpModel {
                            response_bits: r,
                            bit_index: 0,
                            pulse_count: 0,
                            transmitting: false,
                            last_pulse_micros: base + k * bit,
                        }
                    } else {
                        PumpModel {
                            response_bits: r,
                            bit_index: k - w + 1,
                            pulse_count: 10,
                            transmitting: true,
                            last_pulse_micros: base + k * bit,
                        }
                    },
                    line: r[k - w],
                    reass: spec_run(init.reass, r.take(k - w)),
                })
            } else if k == w + n {
                s == (LinkState {
                    pump: PumpModel {
                        response_bits: r,
                        bit_index: 0,
                        pulse_count: 1,
                        transmitting: false,
                        last_pulse_micros: base + k * bit,
                    },
                    line: r[n - 1],
                    reass: spec_run(init.reass, r),
                })
            } else {
                s.reass == spec_run(init.reass, r)
            }
        }),
    decreases k,
{
    let f = spec_framing_of(t);
    let r = spec_response_bits(msg, t);
    let n = r.len() as int;
    let w = 10 - p0;
    let init = spec_link_init(msg, t, last0, p0);
    let s = spec_link_run(init, true, base, bit, k);
    lemma_response_bits_shape(msg, t);
    if k == 0 {
        assert(s =~= (LinkState {
            pump: PumpModel { pulse_count: p0, last_pulse_micros: last0, ..init.pump },
            line: 1,
            reass: init.reass,
        }));
    } else {
        lemma_link_phases(msg, t, last0, p0, base, bit, k - 1);
        let prev = spec_link_run(init, true, base, bit, k - 1);
        let now = base + k * bit;
        assert(s == spec_link_cycle(prev, true, now));
        assert((base + k * bit) - (base + (k - 1) * bit) == bit) by (nonlinear_arith);
        if k <= w - 1 {
            assert(s =~= (LinkState {
                pump: PumpModel { pulse_count: p0 + k, last_pulse_micros: now, ..init.pump },
                line: 1,
                reass: init.reass,
            }));
        } else if k == w {
            // The wake-up edge: the pulse count reaches ten and the METER
            // drives the start bit of the first frame on this very edge.
            assert(r.take(0) =~= Seq::<u8>::empty());
            assert(s =~= (LinkState {
                pump: PumpModel {
                    response_bits: r,
                    bit_index: 1,
                    pulse_count: 10,
                    transmitting: true,
                    last_pulse_micros: now,
                },
                line: r[0],
                reass: spec_run(init.reass, r.take(0)),
            }));
        } else if k <= w - 1 + n {
            // Mid-transmission: the pump shifts bit `k - w` out while
            // the reassembler consumes bit `k - w - 1`.
            assert(r.take(k - w - 1).push(r[k - w - 1]) =~= r.take(k - w));
            lemma_run_push(init.reass, r.take(k - w - 1), r[k - w - 1]);
            if k == w - 1 + n {
                assert(s =~= (LinkState {
                    pump: PumpModel {
                        response_bits: r,
                        bit_index: 0,
                        pulse_count: 0,
                        transmitting: false,
                        last_pulse_micros: now,
                    },
                    line: r[k - w],
                    reass: spec_run(init.reass, r.take(k - w)),
                }));
            } else {
                assert(s =~= (LinkState {
                    pump: PumpModel {
                        response_bits: r,
                        bit_index: k - w + 1,
                        pulse_count: 10,
                        transmitting: true,
                        last_pulse_micros: now,
                    },
                    line: r[k - w],
                    reass: spec_run(init.reass, r.take(k - w)),
                }));
            }
        } else if k == w + n {
            // The cycle after the last response bit: the reassembler
            // consumes it and has seen the whole buffer; the edge counts
            // as the first pulse of a new wake sequence.
            assert(r.take(n - 1).push(r[n - 1]) =~= r.take(n));
            lemma_run_push(init.reass, r.take(n - 1), r[n - 1]);
            assert(r.take(n) =~= r);
            assert(s =~= (LinkState {
                pump: PumpModel {
                    response_bits: r,
                    bit_index: 0,
                    pulse_count: 1,
                    transmitting: false,
                    last_pulse_micros: now,
                },
                line: r[n - 1],
                reass: spec_run(init.reass, r),
            }));
        } else {
            // The telegram is sealed; nothing the line carries afterwards
            // changes the reassembler.
            lemma_telegram_decodes(msg, t);
            assert(prev.reass.complete);
            assert(s.reass == prev.reass);
        }
    }
}

/// Happy path of one transaction, end to end: an enabled, idle METER
/// with a carriage-return-terminated ASCII telegram, clocked at any
/// cycle time up to the pulse timeout, delivers its telegram completely:
/// from the tenth cycle plus one cycle per response bit onward, the
/// reassembler has sealed exactly the telegram's characters, in order.
pub proof fn lemma_link_delivers_telegram(
    msg: Seq<char>,
    t: MeterType,
    last0: int,
    p0: int,
    base: int,
    bit: int,
    k: int,
)
    requires
        vstd::utf8::is_ascii_chars(msg),
        0 < msg.len() <= crate::mtu::reassembler::MAX_MESSAGE_LEN,
        msg.last() == '\r',
        forall|i: int| 0 <= i < msg.len() - 1 ==> msg[i] != '\r',
        1 <= bit <= PULSE_TIMEOUT_MICROS,
        0 <= p0 <= 9,
        k >= 10 - p0 + spec_response_bits(msg, t).len(),
    ensures
        spec_link_run(spec_link_init(msg, t, last0, p0), true, base, bit, k).reass
            == (ReassemblerModel {
            framing: spec_framing_of(t),
            hunting: true,
            frame_bits: Seq::empty(),
            message: spec_telegram_bytes(msg),
            complete: true,
        }),
{
    lemma_link_phases(msg, t, last0, p0, base, bit, k);
    lemma_telegram_decodes(msg, t);
}

/// A clean link: the METER is enabled and idle between transactions —
/// nothing in flight, at most nine wake pulses counted — holding a
/// carriage-return-terminated ASCII telegram under the same framing the
/// session decodes, and the transaction duration leaves room for the
/// wake-up sequence plus one cycle per response bit.
pub open spec fn spec_clean_link(
    mtu_config: MtuConfig,
    pump: PumpModel,
    meter_config: MeterConfig,
    duration_micros: int,
) -> bool {
    let t = meter_config.meter_type;
    let msg = meter_config.response_message@;
    let bit = 1_000_000int / mtu_config.baud_rate as int;
    let cycles = duration_micros / bit;
    &&& meter_config.enabled
    &&& !pump.transmitting
    &&& pump.bit_index == 0
    &&& 0 <= pump.pulse_count <= 9
    &&& mtu_config.framing == spec_framing_of(t)
    &&& 0 < msg.len() <= crate::mtu::reassembler::MAX_MESSAGE_LEN
    &&& msg.last() == '\r'
    &&& forall|i: int| 0 <= i < msg.len() - 1 ==> msg[i] != '\r'
    &&& cycles >= 10 + spec_response_bits(msg, t).len()
}

/// The METER's state after it has delivered its telegram over a clean
/// link: idle again, the edge after its last bit counted as the first
/// pulse of a new wake sequence.
pub open spec fn spec_pump_after_delivery(
    mtu_config: MtuConfig,
    pump: PumpModel,
    meter_config: MeterConfig,
) -> PumpModel {
    let t = meter_config.meter_type;
    let msg = meter_config.response_message@;
    let bit = 1_000_000int / mtu_config.baud_rate as int;
    let base = pump.last_pulse_micros + mtu_config.power_up_delay_ms * 1000;
    PumpModel {
        response_bits: spec_response_bits(msg, t),
        bit_index: 0,
        pulse_count: 1,
        transmitting: false,
        last_pulse_micros: base + (10 - pump.pulse_count + spec_response_bits(msg, t).len()) * bit,
    }
}

/// The MTU session: owns the link configuration, the statistics counters
/// and the last-message slot, and runs transactions against a METER over
/// the simulated two-wire link.
///
/// A transaction drives the clock cycle by cycle: each cycle samples the
/// data line at the midpoint, hands the sample to the reassembler through
/// the bounded bit queue, and delivers the rising edge to the METER's
/// bit-pump, which may drive a new level onto the data line for the next
/// cycle.
pub struct GpioMtu {
    pub config: MtuConfig,
    pub running: bool,
    pub last_message: Option<Vec<u8>>,
    pub clock_cycle_counter: u64,
}

impl GpioMtu {
    pub fn new(config: MtuConfig) -> (mtu: GpioMtu)
        ensures
            mtu.config == config,
            !mtu.running,
            mtu.last_message is None,
            mtu.clock_cycle_counter == 0,
    {
        GpioMtu { config, running: false, last_message: None, clock_cycle_counter: 0 }
    }

    pub fn set_baud_rate(&mut self, baud_rate: u32)
        requires
            1 <= baud_rate <= 1_000_000,
        ensures
            final(self).config == (MtuConfig { baud_rate, ..old(self).config }),
            final(self).running == old(self).running,
            final(self).last_message == old(self).last_message,
            final(self).clock_cycle_counter == old(self).clock_cycle_counter,
    {
        self.config.baud_rate = baud_rate;
    }

    pub fn get_baud_rate(&self) -> (baud_rate: u32)
        ensures
            baud_rate == self.config.baud_rate,
    {
        self.config.baud_rate
    }

    /// A copy of the whole configuration, statistics included.
    pub fn get_config(&self) -> (c: MtuConfig)
        ensures
            c.cycle_duration_micros == self.config.cycle_duration_micros,
            c.power_up_delay_ms == self.config.power_up_delay_ms,
            c.bit_timeout_ms == self.config.bit_timeout_ms,
            c.runtime_micros == self.config.runtime_micros,
            c.framing == self.config.framing,
            c.baud_rate == self.config.baud_rate,
            c.expected_message@ == self.config.expected_message@,
            c.successful_reads == self.config.successful_reads,
            c.corrupted_reads == self.config.corrupted_reads,
    {
        MtuConfig {
            cycle_duration_micros: self.config.cycle_duration_micros,
            power_up_delay_ms: self.config.power_up_delay_ms,
            bit_timeout_ms: self.config.bit_timeout_ms,
            runtime_micros: self.config.runtime_micros,
            framing: self.config.framing,
            baud_rate: self.config.baud_rate,
            expected_message: copy_bytes(&self.config.expected_message),
            successful_reads: self.config.successful_reads,
            corrupted_reads: self.config.corrupted_reads,
        }
    }

    pub fn start(&mut self) -> (r: MtuResult<()>)
        ensures
            final(self).config == old(self).config,
            final(self).running,
            final(self).last_message == old(self).last_message,
            final(self).clock_cycle_counter == old(self).clock_cycle_counter,
            r is Ok,
    {
        self.running = true;
        Ok(())
    }

    pub fn stop(&mut self)
        ensures
            final(self).config == old(self).config,
            !final(self).running,
            final(self).last_message == old(self).last_message,
            final(self).clock_cycle_counter == old(self).clock_cycle_counter,
    {
        self.running = false;
    }

    pub fn is_running(&self) -> (r: bool)
        ensures
            r == self.running,
    {
        self.running
    }

    /// A copy of the last sealed telegram, if one is stored.
    pub fn get_last_message(&self) -> (m: Option<Vec<u8>>)
        ensures
            m is Some <==> self.last_message is Some,
            m matches Some(v) ==> (self.last_message matches Some(w) && v@ == w@),
    {
        match &self.last_message {
            None => None,
            Some(v) => Some(copy_bytes(v)),
        }
    }

    pub fn clear_last_message(&mut self)
        ensures
            final(self).config == old(self).config,
            final(self).running == old(self).running,
            final(self).last_message is None,
            final(self).clock_cycle_counter == old(self).clock_cycle_counter,
    {
        self.last_message = None;
    }

    pub fn set_expected_message(&mut self, expected: Vec<u8>)
        ensures
            final(self).config.expected_message@ == expected@,
            final(self).config == (MtuConfig {
                expected_message: final(self).config.expected_message,
                ..old(self).config
            }),
            final(self).running == old(self).running,
            final(self).last_message == old(self).last_message,
            final(self).clock_cycle_counter == old(self).clock_cycle_counter,
    {
        self.config.expected_message = expected;
    }

    pub fn get_expected_message(&self) -> (m: Vec<u8>)
        ensures
            m@ == self.config.expected_message@,
    {
        copy_bytes(&self.config.expected_message)
    }

    /// The pair (successful reads, corrupted reads).
    pub fn get_stats(&self) -> (stats: (u32, u32))
        ensures
            stats.0 == self.config.successful_reads,
            stats.1 == self.config.corrupted_reads,
    {
        (self.config.successful_reads, self.config.corrupted_reads)
    }

    pub fn reset_stats(&mut self)
        ensures
            final(self).config == (MtuConfig {
                successful_reads: 0,
                corrupted_reads: 0,
                ..old(self).config
            }),
            final(self).running == old(self).running,
            final(self).last_message == old(self).last_message,
            final(self).clock_cycle_counter == old(self).clock_cycle_counter,
    {
        self.config.successful_reads = 0;
        self.config.corrupted_reads = 0;
    }

    /// Grades one transaction's outcome: a received message that equals
    /// the expected telegram byte for byte counts as successful, anything
    /// else — a differing message or none at all — as corrupted. Exactly
    /// one counter steps by one.
    pub fn record_message_result(&mut self, received_message: Option<Vec<u8>>) -> (success: bool)
        requires
            old(self).config.successful_reads < u32::MAX,
            old(self).config.corrupted_reads < u32::MAX,
        ensures
            success == (received_message matches Some(m) && m@
                == old(self).config.expected_message@),
            success ==> final(self).config == (MtuConfig {
                successful_reads: (old(self).config.successful_reads + 1) as u32,
                ..old(self).config
            }),
            !success ==> final(self).config == (MtuConfig {
                corrupted_reads: (old(self).config.corrupted_reads + 1) as u32,
                ..old(self).config
            }),
            final(self).running == old(self).running,
            final(self).last_message == old(self).last_message,
            final(self).clock_cycle_counter == old(self).clock_cycle_counter,
    {
        match received_message {
            Some(received) => {
                if bytes_equal(&received, &self.config.expected_message) {
                    self.config.successful_reads = self.config.successful_reads + 1;
                    true
                } else {
                    self.config.corrupted_reads = self.config.corrupted_reads + 1;
                    false
                }
            },
            None => {
                self.config.corrupted_reads = self.config.corrupted_reads + 1;
                false
            },
        }
    }

    /// One transaction against `meter` over the simulated link, bounded
    /// by `duration_micros`.
    ///
    /// The clock starts after the power-up hold and runs one cycle per
    /// bit period. Each cycle samples the data line at its midpoint,
    /// queues the sample, lets the reassembler drain the queue, and
    /// delivers the rising edge to the METER (a disabled METER leaves the
    /// line at idle HIGH). The transaction ends when the reassembler
    /// seals a telegram or the duration is exhausted; only a sealed
    /// telegram is stored in the last-message slot, never a partial one.
    pub fn run_mtu_operation(&mut self, duration_micros: u64, meter: &mut MeterPump) -> (r: MtuResult<()>)
        requires
            old(self).config.wf(),
            old(meter).wf(),
            duration_micros <= 1_000_000_000_000,
            old(meter)@.last_pulse_micros <= 900_000_000_000_000,
        ensures
            r is Ok,
            final(self).config == old(self).config,
            !final(self).running,
            final(meter).wf(),
            final(meter).config == old(meter).config,
            final(meter)@.last_pulse_micros <= old(meter)@.last_pulse_micros + old(self).config.power_up_delay_ms * 1000 + duration_micros + 1_000_000,
            final(self).last_message == old(self).last_message || (final(self).last_message matches Some(m) && spec_sealed_message(m@)),
            ({
                let bit = 1_000_000int / old(self).config.baud_rate as int;
                let cycles = duration_micros as int / bit;
                let base = old(meter)@.last_pulse_micros + old(self).config.power_up_delay_ms
                    * 1000;
                let init = LinkState {
                    pump: old(meter)@,
                    line: 1,
                    reass: ReassemblerModel::init(old(self).config.framing),
                };
                exists|k: int|
                    #![trigger spec_link_run(init, old(meter).config.enabled, base, bit, k)]
                    0 <= k <= cycles && ({
                        let end = spec_link_run(init, old(meter).config.enabled, base, bit, k);
                        &&& final(meter)@ == end.pump
                        &&& (k < cycles ==> end.reass.complete)
                        &&& (if end.reass.complete {
                            final(self).last_message matches Some(m) && m@ == end.reass.message
                        } else {
                            final(self).last_message == old(self).last_message
                        })
                    })
            }),
            ({
                // A disabled METER never touches the line: the whole
                // transaction samples idle HIGH, the METER state is
                // untouched and nothing reaches the last-message slot.
                !old(meter).config.enabled ==> ({
                    &&& final(meter)@ == old(meter)@
                    &&& final(self).last_message == old(self).last_message
                })
            }),
            ({
                // No terminating carriage return within the duration: the
                // transaction runs its full length and the last-message
                // slot is untouched.
                let bit = 1_000_000int / old(self).config.baud_rate as int;
                let cycles = duration_micros as int / bit;
                let base = old(meter)@.last_pulse_micros + old(self).config.power_up_delay_ms
                    * 1000;
                let init = LinkState {
                    pump: old(meter)@,
                    line: 1,
                    reass: ReassemblerModel::init(old(self).config.framing),
                };
                let whole = spec_link_run(init, old(meter).config.enabled, base, bit, cycles);
                !whole.reass.complete ==> (final(self).last_message == old(self).last_message
                    && final(meter)@ == whole.pump)
            }),
            ({
                // Happy path: over a clean link the telegram arrives in
                // full, and the METER is left idle for the next
                // transaction.
                let msg = old(meter).config.response_message@;
                spec_clean_link(
                    old(self).config,
                    old(meter)@,
                    old(meter).config,
                    duration_micros as int,
                ) ==> ((final(self).last_message matches Some(m) && m@ == spec_telegram_bytes(msg))
                    && final(meter)@ == spec_pump_after_delivery(
                    old(self).config,
                    old(meter)@,
                    old(meter).config,
                ))
            }),
    {
        let bit_duration: u64 = self.config.bit_duration_micros();
        let cycles: u64 = duration_micros / bit_duration;
        proof {
            vstd::arithmetic::div_mod::lemma_fundamental_div_mod(
                duration_micros as int,
                bit_duration as int,
            );
            vstd::arithmetic::div_mod::lemma_mod_bound(
                duration_micros as int,
                bit_duration as int,
            );
            assert(bit_duration as int * (duration_micros as int / bit_duration as int)
                <= duration_micros as int);
            assert(cycles as int * bit_duration as int <= duration_micros as int)
                by (nonlinear_arith)
                requires
                    cycles as int == duration_micros as int / bit_duration as int,
                    bit_duration as int * (duration_micros as int / bit_duration as int)
                        <= duration_micros as int,
            ;
        }

        self.running = true;

        // Power-up hold: the clock sits HIGH and the METER sees no edge.
        let base: u64 = meter.last_pulse_micros + self.config.power_up_delay_ms * 1000;

        let mut queue = BitQueue::new(BIT_QUEUE_CAPACITY);
        let mut reassembler = Reassembler::new(self.config.framing);
        // Both lines idle HIGH.
        let mut data_line: u8 = 1;
        let mut k: u64 = 0;
        let ghost enabled = meter.config.enabled;
        let ghost init = LinkState {
            pump: old(meter)@,
            line: 1,
            reass: ReassemblerModel::init(old(self).config.framing),
        };

        while k < cycles && !reassembler.is_complete()
            invariant
                k <= cycles,
                1 <= bit_duration <= 1_000_000,
                bit_duration as int == 1_000_000int / old(self).config.baud_rate as int,
                cycles as int == duration_micros as int / bit_duration as int,
                cycles * bit_duration <= duration_micros,
                duration_micros <= 1_000_000_000_000,
                base == old(meter)@.last_pulse_micros + old(self).config.power_up_delay_ms * 1000,
                base <= 901_000_000_000_000,
                enabled == old(meter).config.enabled,
                init == (LinkState {
                    pump: old(meter)@,
                    line: 1,
                    reass: ReassemblerModel::init(old(self).config.framing),
                }),
                meter@ == spec_link_run(init, enabled, base as int, bit_duration as int, k as int).pump,
                data_line == spec_link_run(init, enabled, base as int, bit_duration as int, k as int).line,
                reassembler@ == spec_link_run(init, enabled, base as int, bit_duration as int, k as int).reass,
                k > 0 ==> !spec_link_run(
                    init,
                    enabled,
                    base as int,
                    bit_duration as int,
                    k as int - 1,
                ).reass.complete,
                !enabled ==> (meter@ == old(meter)@ && data_line == 1 && reassembler@
                    == ReassemblerModel::init(old(self).config.framing)),
                self.config == old(self).config,
                self.running,
                self.last_message == old(self).last_message,
                reassembler@.wf(),
                queue.spec_capacity() == BIT_QUEUE_CAPACITY,
                queue@.len() == 0 || reassembler@.complete,
                meter.wf(),
                meter.config == old(meter).config,
                meter@.last_pulse_micros <= base + k * bit_duration,
            decreases cycles - k,
        {
            proof {
                vstd::arithmetic::mul::lemma_mul_inequality(
                    k as int + 1,
                    cycles as int,
                    bit_duration as int,
                );
                assert((k as int + 1) * bit_duration as int == k as int * bit_duration as int
                    + bit_duration as int) by (nonlinear_arith);
            }
            // Clock LOW half-cycle, then the midpoint sample of the data
            // line goes to the queue. The queue was drained last cycle,
            // so exactly this one bit is pending: at most one bit is
            // enqueued per cycle, and none is ever dropped here.
            let sampled: u8 = data_line;
            let accepted = queue.try_send(sampled);
            proof {
                assert(accepted);
            }

            // The reassembler consumes the queue in sampling order.
            proof {
                assert(queue@ =~= seq![sampled]);
            }
            drain_queue(&mut queue, &mut reassembler);
            proof {
                reveal_with_fuel(spec_run, 2);
                assert(seq![sampled].drop_first() =~= Seq::<u8>::empty());
                assert(reassembler@ == spec_step(
                    spec_link_run(init, enabled, base as int, bit_duration as int, k as int).reass,
                    sampled,
                ).0);
            }

            // Rising edge at the midpoint: the METER may drive a new
            // level, which the next cycle's sample will observe.
            let now: u64 = base + (k + 1) * bit_duration;
            if meter.config.enabled {
                match meter.on_rising_edge(now) {
                    Some(level) => {
                        data_line = level;
                    },
                    None => {},
                }
            }
            proof {
                let pre = spec_link_run(init, enabled, base as int, bit_duration as int, k as int);
                let post = spec_link_run(
                    init,
                    enabled,
                    base as int,
                    bit_duration as int,
                    k as int + 1,
                );
                assert(post == spec_link_cycle(pre, enabled, base as int + (k as int + 1)
                    * bit_duration as int));
                assert(now as int == base as int + (k as int + 1) * bit_duration as int);
                assert(meter@ == post.pump);
                assert(data_line == post.line);
                assert(reassembler@ == post.reass);
            }
            k = k + 1;
        }
        proof {
            vstd::arithmetic::mul::lemma_mul_inequality(
                k as int,
                cycles as int,
                bit_duration as int,
            );
        }
        self.clock_cycle_counter = k;

        // Only a sealed telegram reaches the last-message slot.
        if reassembler.is_complete() {
            self.last_message = Some(copy_bytes(reassembler.message()));
        }

        // Park the clock HIGH and end the transaction.
        self.running = false;
        proof {
            let t = old(meter).config.meter_type;
            let msg = old(meter).config.response_message@;
            let n = spec_response_bits(msg, t).len() as int;
            let last0 = old(meter)@.last_pulse_micros;
            let p0 = old(meter)@.pulse_count;
            let w = 10 - p0;
            if spec_clean_link(
                old(self).config,
                old(meter)@,
                old(meter).config,
                duration_micros as int,
            ) {
                assert(init =~= spec_link_init(msg, t, last0, p0));
                lemma_telegram_decodes(msg, t);
                lemma_link_phases(msg, t, last0, p0, base as int, bit_duration as int, k as int);
                // The transaction cannot have run past the delivery
                // cycle: the cycle before it would already be sealed.
                if k as int > w + n {
                    lemma_link_phases(
                        msg,
                        t,
                        last0,
                        p0,
                        base as int,
                        bit_duration as int,
                        k as int - 1,
                    );
                    assert(false);
                }
                // Nor can it have stopped before the delivery cycle: no
                // prefix of the buffer seals the message, so the loop
                // neither completed early nor ran out of cycles.
                if (k as int) < w + n {
                    assert((k as int) < cycles as int);
                    assert(reassembler@.complete);
                    if k as int >= w {
                        lemma_no_early_seal(msg, t, k as int - w);
                    }
                    assert(false);
                }
                assert(k as int == w + n);
            }
            let whole = spec_link_run(
                init,
                enabled,
                base as int,
                bit_duration as int,
                cycles as int,
            );
            if !whole.reass.complete {
                // Had any cycle sealed the message, every later cycle of
                // the model would be sealed too.
                if reassembler@.complete {
                    lemma_link_complete_monotone(
                        init,
                        enabled,
                        base as int,
                        bit_duration as int,
                        k as int,
                        cycles as int,
                    );
                }
                assert(k == cycles);
            }
            let end = spec_link_run(init, enabled, base as int, bit_duration as int, k as int);
            assert(0 <= k as int <= duration_micros as int / (1_000_000int
                / old(self).config.baud_rate as int) && {
                &&& meter@ == end.pump
                &&& ((k as int) < (cycles as int) ==> end.reass.complete)
                &&& (if end.reass.complete {
                    self.last_message matches Some(m) && m@ == end.reass.message
                } else {
                    self.last_message == old(self).last_message
                })
            });
        }
        Ok(())
    }

    /// One manual transaction, graded: runs the operation, then records
    /// the outcome against the expected telegram.
    ///
    /// The transaction never clears the last-message slot (only a sealed
    /// telegram may replace its contents), so the grading sees whatever
    /// the slot holds at the end: a stale telegram from an earlier
    /// transaction that equals the expected message grades as a fresh
    /// success. [`GpioMtu::run_test`] clears the slot before every
    /// transaction; manual callers may do the same with
    /// [`GpioMtu::clear_last_message`].
    pub fn run_mtu_operation_with_stats(&mut self, duration_micros: u64, meter: &mut MeterPump) -> (r: MtuResult<()>)
        requires
            old(self).config.wf(),
            old(meter).wf(),
            duration_micros <= 1_000_000_000_000,
            old(meter)@.last_pulse_micros <= 900_000_000_000_000,
            old(self).config.successful_reads < u32::MAX,
            old(self).config.corrupted_reads < u32::MAX,
        ensures
            r is Ok,
            !final(self).running,
            final(meter).wf(),
            final(meter).config == old(meter).config,
            final(self).config.successful_reads + final(self).config.corrupted_reads == old(self).config.successful_reads + old(self).config.corrupted_reads + 1,
            (final(self).config.successful_reads == old(self).config.successful_reads + 1) <==> (
            final(self).last_message matches Some(m) && m@ == old(self).config.expected_message@),
            final(self).config == (MtuConfig {
                successful_reads: final(self).config.successful_reads,
                corrupted_reads: final(self).config.corrupted_reads,
                ..old(self).config
            }),
            final(self).last_message == old(self).last_message || (final(self).last_message matches Some(m) && spec_sealed_message(m@)),
            ({
                // A transaction that stores nothing — the slot keeps its
                // old contents — grades against those old contents: when
                // they are not the expected telegram, the read counts as
                // corrupted.
                (final(self).last_message == old(self).last_message && !(old(
                    self,
                ).last_message matches Some(m) && m@ == old(self).config.expected_message@)) ==> ({
                    &&& final(self).config.corrupted_reads == old(self).config.corrupted_reads + 1
                    &&& final(self).config.successful_reads == old(self).config.successful_reads
                })
            }),
            ({
                // A disabled METER never touches the line: its state and
                // the last-message slot are unchanged.
                !old(meter).config.enabled ==> ({
                    &&& final(meter)@ == old(meter)@
                    &&& final(self).last_message == old(self).last_message
                })
            }),
            ({
                // No terminating carriage return within the duration: the
                // transaction runs its full length and the slot is
                // unchanged, so the grading judges the old contents.
                let bit = 1_000_000int / old(self).config.baud_rate as int;
                let cycles = duration_micros as int / bit;
                let base = old(meter)@.last_pulse_micros + old(self).config.power_up_delay_ms
                    * 1000;
                let init = LinkState {
                    pump: old(meter)@,
                    line: 1,
                    reass: ReassemblerModel::init(old(self).config.framing),
                };
                let whole = spec_link_run(init, old(meter).config.enabled, base, bit, cycles);
                !whole.reass.complete ==> ({
                    &&& final(self).last_message == old(self).last_message
                    &&& final(meter)@ == whole.pump
                })
            }),
            ({
                // Happy path, graded: when the METER holds the very
                // telegram the session expects, a clean link counts as a
                // successful read and leaves the METER idle again.
                let msg = old(meter).config.response_message@;
                (spec_clean_link(
                    old(self).config,
                    old(meter)@,
                    old(meter).config,
                    duration_micros as int,
                ) && old(self).config.expected_message@ == spec_telegram_bytes(msg)) ==> ({
                    &&& final(self).config.successful_reads == old(self).config.successful_reads
                        + 1
                    &&& final(meter)@ == spec_pump_after_delivery(
                        old(self).config,
                        old(meter)@,
                        old(meter).config,
                    )
                })
            }),
    {
        let result = self.run_mtu_operation(duration_micros, meter);
        let received_message = self.get_last_message();
        self.record_message_result(received_message);
        result
    }

    /// Runs `iterations` graded transactions against `meter` and returns
    /// how many telegrams matched the expected message and how many did
    /// not: the two always sum to `iterations`, and the session's
    /// cumulative counters advance by exactly the same deltas.
    pub fn run_test(&mut self, iterations: u16, meter: &mut MeterPump) -> (r: MtuResult<(u16, u16)>)
        requires
            old(self).config.wf(),
            old(meter).wf(),
            old(self).config.successful_reads + iterations <= u32::MAX,
            old(self).config.corrupted_reads + iterations <= u32::MAX,
            old(meter)@.last_pulse_micros <= 700_000_000_000_000,
        ensures
            final(meter).wf(),
            final(meter).config == old(meter).config,
            r matches Ok(counts) && counts.0 + counts.1 == iterations && final(self).config
                == (MtuConfig {
                successful_reads: (old(self).config.successful_reads + counts.0) as u32,
                corrupted_reads: (old(self).config.corrupted_reads + counts.1) as u32,
                ..old(self).config
            }),
            iterations > 0 ==> !final(self).running,
            iterations > 0 ==> (final(self).last_message is None || (final(self).last_message matches Some(m) && spec_sealed_message(m@))),
            iterations == 0 ==> *final(self) == *old(self),
            ({
                // A disabled METER cannot answer: every transaction ends
                // at its duration with an empty slot, grades as
                // corrupted, and leaves the METER untouched.
                !old(meter).config.enabled ==> ({
                    &&& r matches Ok(counts) && counts.0 == 0 && counts.1 == iterations
                    &&& final(meter)@ == old(meter)@
                })
            }),
            ({
                // Repeatability: over a clean link, with the METER
                // holding the very telegram the session expects, every
                // single transaction succeeds.
                let msg = old(meter).config.response_message@;
                (spec_clean_link(old(self).config, old(meter)@, old(meter).config, 10_000_000)
                    && old(self).config.expected_message@ == spec_telegram_bytes(msg)) ==> (
                r matches Ok(counts) && counts.0 == iterations && counts.1 == 0)
            }),
    {
        let ghost clean = spec_clean_link(
            old(self).config,
            old(meter)@,
            old(meter).config,
            10_000_000,
        ) && old(self).config.expected_message@ == spec_telegram_bytes(
            old(meter).config.response_message@,
        );
        let mut successful_messages: u16 = 0;
        let mut corrupted_messages: u16 = 0;
        let mut iteration: u16 = 0;
        while iteration < iterations
            invariant
                iteration <= iterations,
                successful_messages + corrupted_messages == iteration,
                old(self).config.successful_reads + iterations <= u32::MAX,
                old(self).config.corrupted_reads + iterations <= u32::MAX,
                self.config == (MtuConfig {
                    successful_reads: (old(self).config.successful_reads
                        + successful_messages) as u32,
                    corrupted_reads: (old(self).config.corrupted_reads
                        + corrupted_messages) as u32,
                    ..old(self).config
                }),
                self.config.wf(),
                meter.wf(),
                meter.config == old(meter).config,
                meter@.last_pulse_micros <= old(meter)@.last_pulse_micros + iteration
                    * 2_000_000_000,
                old(meter)@.last_pulse_micros <= 700_000_000_000_000,
                iteration > 0 ==> !self.running,
                iteration > 0 ==> (self.last_message is None || (self.last_message matches Some(m)
                    && spec_sealed_message(m@))),
                iteration == 0 ==> self.running == old(self).running && self.last_message == old(self).last_message && self.clock_cycle_counter == old(self).clock_cycle_counter,
                clean == (spec_clean_link(old(self).config, old(meter)@, old(meter).config, 10_000_000)
                    && old(self).config.expected_message@ == spec_telegram_bytes(
                    old(meter).config.response_message@,
                )),
                clean ==> corrupted_messages == 0,
                clean ==> !meter@.transmitting && meter@.bit_index == 0 && 0 <= meter@.pulse_count
                    <= 9,
                !old(meter).config.enabled ==> (successful_messages == 0 && meter@ == old(
                    meter,
                )@),
            decreases iterations - iteration,
        {
            // Fresh slot for this transaction.
            self.clear_last_message();

            // One bounded transaction: 10 seconds each.
            let test_duration: u64 = 10_000_000;
            proof {
                assert(iteration as int * 2_000_000_000 + 2_000_000_000 == (iteration as int + 1)
                    * 2_000_000_000) by (nonlinear_arith);
            }
            match self.run_mtu_operation(test_duration, meter) {
                Ok(()) => {
                    // Grade what this transaction left in the slot.
                    let received_message = self.get_last_message();
                    if self.record_message_result(received_message) {
                        successful_messages = successful_messages + 1;
                    } else {
                        corrupted_messages = corrupted_messages + 1;
                    }
                },
                Err(_) => {
                    corrupted_messages = corrupted_messages + 1;
                },
            }
            iteration = iteration + 1;
        }

        Ok((successful_messages, corrupted_messages))
    }
}

} // verus!



