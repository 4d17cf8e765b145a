use vstd::prelude::*;

use crate::mtu::config::spec_bits_per_frame;
use crate::mtu::config::UartFraming;
use crate::mtu::error::MtuError;
use crate::mtu::gpio_mtu::MtuEventType;
use crate::mtu::uart_framing::bits_to_frame;
use crate::mtu::uart_framing::extract_char_from_frame;
use crate::mtu::uart_framing::spec_encode;
use crate::mtu::uart_framing::spec_extract;
use crate::mtu::uart_framing::spec_ones;

verus! {

/// The message buffer holds at most this many characters; later characters
/// of an overlong telegram are dropped.
pub const MAX_MESSAGE_LEN: usize = 256;

/// Carriage return, the character that terminates a telegram.
pub const CARRIAGE_RETURN: u8 = 13;

/// Abstract state of a frame reassembler.
pub ghost struct ReassemblerModel {
    /// Framing the gathered frames are judged under.
    pub framing: UartFraming,
    /// True while idle bits are discarded in the hunt for a start bit.
    pub hunting: bool,
    /// Gather scratch: the bits of the frame begun by the last start bit.
    pub frame_bits: Seq<u8>,
    /// Characters decoded so far, in arrival order.
    pub message: Seq<u8>,
    /// True once a carriage return has sealed the message.
    pub complete: bool,
}

impl ReassemblerModel {
    /// The scratch is empty while hunting, never overfull while gathering,
    /// and always begins with the start bit that ended the hunt. The
    /// message holds only decoded 7-bit characters, at most one carriage
    /// return, at the end; a sealed message ends with it unless the buffer
    /// filled up before it arrived.
    pub open spec fn wf(self) -> bool {
        &&& self.hunting ==> self.frame_bits.len() == 0
        &&& !self.hunting ==> 1 <= self.frame_bits.len() < spec_bits_per_frame(self.framing)
        &&& !self.hunting ==> self.frame_bits[0] == 0
        &&& self.message.len() <= MAX_MESSAGE_LEN
        &&& forall|i: int| 0 <= i < self.message.len() ==> self.message[i] <= 127
        &&& forall|i: int|
            0 <= i < self.message.len() - 1 ==> self.message[i] != CARRIAGE_RETURN
        &&& !self.complete ==> self.message.len() == 0 || self.message.last() != CARRIAGE_RETURN
        &&& self.complete ==> self.message.len() > 0
        &&& self.complete ==> self.hunting
        &&& self.complete ==> self.message.last() == CARRIAGE_RETURN || self.message.len()
            == MAX_MESSAGE_LEN
    }

    /// The state a reassembler starts a transaction in.
    pub open spec fn init(framing: UartFraming) -> ReassemblerModel {
        ReassemblerModel {
            framing,
            hunting: true,
            frame_bits: Seq::empty(),
            message: Seq::empty(),
            complete: false,
        }
    }
}

/// What a sealed telegram looks like: 7-bit characters, no interior
/// carriage return, and a terminating carriage return — unless the buffer
/// filled to its limit before the carriage return arrived, in which case
/// the telegram was cut short at that limit.
pub open spec fn spec_sealed_message(m: Seq<u8>) -> bool {
    &&& 0 < m.len() <= MAX_MESSAGE_LEN
    &&& forall|i: int| 0 <= i < m.len() ==> m[i] <= 127
    &&& forall|i: int| 0 <= i < m.len() - 1 ==> m[i] != CARRIAGE_RETURN
    &&& m.last() == CARRIAGE_RETURN || m.len() == MAX_MESSAGE_LEN
}

/// Triage data of a frame that failed validation, as the diagnostic event
/// carries it: zeroed when fewer than ten bits were gathered.
pub open spec fn spec_frame_error_event(bits: Seq<u8>, e: MtuError) -> MtuEventType {
    if bits.len() >= 10 {
        MtuEventType::FramingError {
            error_type: e,
            frame_bits_len: bits.len() as usize,
            start_bit: bits[0],
            parity_bit: bits[8],
            stop_bit: bits[9],
            data_ones_count: spec_ones(bits.subrange(1, 8)) as usize,
            expected_parity: (spec_ones(bits.subrange(1, 8)) % 2) as u8,
        }
    } else {
        MtuEventType::FramingError {
            error_type: e,
            frame_bits_len: bits.len() as usize,
            start_bit: 0,
            parity_bit: 0,
            stop_bit: 0,
            data_ones_count: 0,
            expected_parity: 0,
        }
    }
}

/// One reassembler step on one dequeued bit.
///
/// A sealed reassembler ignores everything. A hunting one discards any bit
/// but 0, which begins a frame. A gathering one stores the bit; a full
/// frame is decoded at once: a validation failure returns to the hunt with
/// a diagnostic, a decoded character joins the message (dropped if the
/// buffer is full), and a carriage return seals the message.
pub open spec fn spec_step(pre: ReassemblerModel, bit: u8) -> (ReassemblerModel, Option<
    MtuEventType,
>) {
    if pre.complete {
        (pre, None)
    } else if pre.hunting {
        if bit == 0 {
            (ReassemblerModel { hunting: false, frame_bits: seq![0u8], ..pre }, None)
        } else {
            (pre, None)
        }
    } else {
        let frame = pre.frame_bits.push(bit);
        if frame.len() < spec_bits_per_frame(pre.framing) {
            (ReassemblerModel { frame_bits: frame, ..pre }, None)
        } else {
            match spec_extract(frame, pre.framing) {
                Err(e) => (
                    ReassemblerModel { hunting: true, frame_bits: Seq::empty(), ..pre },
                    Some(spec_frame_error_event(frame, e)),
                ),
                Ok(byte) => {
                    let message = if pre.message.len() < MAX_MESSAGE_LEN {
                        pre.message.push(byte)
                    } else {
                        pre.message
                    };
                    let post = ReassemblerModel {
                        hunting: true,
                        frame_bits: Seq::empty(),
                        message,
                        complete: byte == CARRIAGE_RETURN,
                        ..pre
                    };
                    if byte == CARRIAGE_RETURN {
                        (post, Some(MtuEventType::MessageComplete { length: message.len() as usize }))
                    } else {
                        (
                            post,
                            Some(
                                MtuEventType::CharacterReceived {
                                    ch: byte as char,
                                    ascii: byte,
                                    message_len: message.len() as usize,
                                },
                            ),
                        )
                    }
                },
            }
        }
    }
}

/// The reassembler state after consuming a whole bit sequence, oldest bit
/// first.
pub open spec fn spec_run(pre: ReassemblerModel, bits: Seq<u8>) -> ReassemblerModel
    decreases bits.len(),
{
    if bits.len() == 0 {
        pre
    } else {
        spec_run(spec_step(pre, bits[0]).0, bits.drop_first())
    }
}

/// A run over concatenated input splits at the seam.
pub proof fn lemma_run_concat(r: ReassemblerModel, s1: Seq<u8>, s2: Seq<u8>)
    ensures
        spec_run(r, s1 + s2) == spec_run(spec_run(r, s1), s2),
    decreases s1.len(),
{
    if s1.len() == 0 {
        assert(s1 + s2 =~= s2);
    } else {
        assert((s1 + s2)[0] == s1[0]);
        assert((s1 + s2).drop_first() =~= s1.drop_first() + s2);
        lemma_run_concat(spec_step(r, s1[0]).0, s1.drop_first(), s2);
    }
}

/// The state a character frame leaves behind when it is fed to a hunting
/// reassembler: back to the hunt, the decoded character appended (unless
/// the message buffer is full), and the message sealed exactly when that
/// character is the carriage return.
pub open spec fn spec_after_frame(pre: ReassemblerModel, b: u8) -> ReassemblerModel {
    ReassemblerModel {
        hunting: true,
        frame_bits: Seq::empty(),
        message: if pre.message.len() < MAX_MESSAGE_LEN {
            pre.message.push(b)
        } else {
            pre.message
        },
        complete: b == CARRIAGE_RETURN,
        ..pre
    }
}

/// Gathering the remainder of a frame: from a state holding the first
/// `j` bits of the frame of `b`, consuming the rest decodes `b`.
proof fn lemma_gather_frame(pre: ReassemblerModel, b: u8, j: int)
    requires
        pre.wf(),
        pre.hunting,
        !pre.complete,
        b <= 127,
        1 <= j <= spec_bits_per_frame(pre.framing) - 1,
    ensures
        ({
            let e = spec_encode(b, pre.framing);
            let mid = ReassemblerModel { hunting: false, frame_bits: e.take(j), ..pre };
            spec_run(mid, e.skip(j)) == spec_after_frame(pre, b)
        }),
    decreases spec_bits_per_frame(pre.framing) - j,
{
    let f = pre.framing;
    let e = spec_encode(b, f);
    let n = spec_bits_per_frame(f);
    assert(e.len() == n);
    assert(e[0] == 0);
    let mid = ReassemblerModel { hunting: false, frame_bits: e.take(j), ..pre };
    assert(e.skip(j)[0] == e[j]);
    assert(e.skip(j).drop_first() =~= e.skip(j + 1));
    let stepped = spec_step(mid, e[j]).0;
    assert(mid.frame_bits.push(e[j]) =~= e.take(j + 1));
    if j + 1 < n {
        assert(stepped =~= (ReassemblerModel { hunting: false, frame_bits: e.take(j + 1), ..pre }));
        lemma_gather_frame(pre, b, j + 1);
    } else {
        assert(e.take(j + 1) =~= e);
        crate::mtu::uart_framing::lemma_encode_round_trip(b, f);
        assert(spec_extract(e, f) == Ok::<u8, MtuError>(b));
        assert(stepped =~= spec_after_frame(pre, b));
        assert(e.skip(j + 1) =~= Seq::<u8>::empty());
        assert(spec_run(stepped, e.skip(j + 1)) == stepped);
    }
}

/// One whole character frame, fed to a hunting, unsealed reassembler,
/// decodes exactly its character: the reassembler returns to the hunt
/// with the character appended to the message, and the message is sealed
/// exactly when the character is the carriage return.
pub proof fn lemma_frame_decodes(pre: ReassemblerModel, b: u8)
    requires
        pre.wf(),
        pre.hunting,
        !pre.complete,
        b <= 127,
    ensures
        spec_run(pre, spec_encode(b, pre.framing)) == spec_after_frame(pre, b),
{
    let f = pre.framing;
    let e = spec_encode(b, f);
    assert(e[0] == 0);
    assert(spec_step(pre, e[0]).0 =~= (ReassemblerModel {
        hunting: false,
        frame_bits: e.take(1),
        ..pre
    })) by {
        assert(seq![0u8] =~= e.take(1));
    }
    assert(e.drop_first() =~= e.skip(1));
    lemma_gather_frame(pre, b, 1);
}

/// A proper prefix of a character frame leaves the reassembler gathering
/// — in particular it never seals the message.
pub proof fn lemma_frame_prefix_gathers(pre: ReassemblerModel, b: u8, p: int)
    requires
        pre.wf(),
        pre.hunting,
        !pre.complete,
        b <= 127,
        1 <= p <= spec_bits_per_frame(pre.framing) - 1,
    ensures
        ({
            let e = spec_encode(b, pre.framing);
            spec_run(pre, e.take(p)) == (ReassemblerModel {
                hunting: false,
                frame_bits: e.take(p),
                ..pre
            })
        }),
    decreases p,
{
    reveal_with_fuel(spec_run, 3);
    let f = pre.framing;
    let e = spec_encode(b, f);
    assert(e.len() == spec_bits_per_frame(f));
    assert(e[0] == 0);
    if p == 1 {
        assert(e.take(1)[0] == 0);
        assert(e.take(1).drop_first() =~= Seq::<u8>::empty());
        assert(spec_step(pre, 0).0 =~= (ReassemblerModel {
            hunting: false,
            frame_bits: e.take(1),
            ..pre
        })) by {
            assert(seq![0u8] =~= e.take(1));
        }
    } else {
        lemma_frame_prefix_gathers(pre, b, p - 1);
        assert(e.take(p - 1).push(e[p - 1]) =~= e.take(p));
        lemma_run_concat(pre, e.take(p - 1), seq![e[p - 1]]);
        assert(e.take(p - 1) + seq![e[p - 1]] =~= e.take(p));
        let mid = ReassemblerModel { hunting: false, frame_bits: e.take(p - 1), ..pre };
        assert(seq![e[p - 1]].drop_first() =~= Seq::<u8>::empty());
        assert(spec_run(mid, seq![e[p - 1]]) == spec_step(mid, e[p - 1]).0);
        assert(spec_step(mid, e[p - 1]).0 =~= (ReassemblerModel {
            hunting: false,
            frame_bits: e.take(p),
            ..pre
        }));
    }
}

/// Idempotence after completion: once a carriage return has sealed the
/// message, no further input — trailing idle bits or anything else —
/// changes the reassembler or produces another message.
pub proof fn lemma_complete_is_stable(m: ReassemblerModel, bits: Seq<u8>)
    requires
        m.complete,
    ensures
        spec_run(m, bits) == m,
    decreases bits.len(),
{
    if bits.len() > 0 {
        lemma_complete_is_stable(m, bits.drop_first());
    }
}

/// Consumes the stream of sampled bits of one transaction: hunts for start
/// bits, gathers and validates frames, and accumulates the telegram until
/// a carriage return seals it.
pub struct Reassembler {
    framing: UartFraming,
    hunting: bool,
    frame_bits: Vec<u8>,
    message: Vec<u8>,
    complete: bool,
}

impl View for Reassembler {
    type V = ReassemblerModel;

    closed spec fn view(&self) -> ReassemblerModel {
        ReassemblerModel {
            framing: self.framing,
            hunting: self.hunting,
            frame_bits: self.frame_bits@,
            message: self.message@,
            complete: self.complete,
        }
    }
}

impl Reassembler {
    pub fn new(framing: UartFraming) -> (r: Reassembler)
        ensures
            r@ == ReassemblerModel::init(framing),
            r@.wf(),
    {
        let r = Reassembler {
            framing,
            hunting: true,
            frame_bits: Vec::new(),
            message: Vec::new(),
            complete: false,
        };
        proof {
            assert(r@ =~= ReassemblerModel::init(framing));
        }
        r
    }

    /// True once a carriage return has sealed the message.
    pub fn is_complete(&self) -> (b: bool)
        ensures
            b == self@.complete,
    {
        self.complete
    }

    /// The characters decoded so far; the completed telegram once the
    /// message is sealed.
    pub fn message(&self) -> (m: &Vec<u8>)
        ensures
            m@ == self@.message,
    {
        &self.message
    }

    /// Feeds one dequeued bit to the reassembler; see [`spec_step`].
    pub fn on_bit(&mut self, bit: u8) -> (ev: Option<MtuEventType>)
        requires
            old(self)@.wf(),
        ensures
            final(self)@ == spec_step(old(self)@, bit).0,
            ev == spec_step(old(self)@, bit).1,
            final(self)@.wf(),
            final(self)@.framing == old(self)@.framing,
    {
        if self.complete {
            return None;
        }
        if self.hunting {
            if bit == 0 {
                self.hunting = false;
                self.frame_bits.push(0);
                proof {
                    assert(self.frame_bits@ =~= seq![0u8]);
                    assert(self@ =~= spec_step(old(self)@, bit).0);
                }
            }
            return None;
        }
        self.frame_bits.push(bit);
        let frame_size = self.framing.bits_per_frame();
        if self.frame_bits.len() < frame_size {
            proof {
                assert(self@ =~= spec_step(old(self)@, bit).0);
            }
            return None;
        }

        // A full frame: judge it through the codec.
        let decoded = match bits_to_frame(self.frame_bits.as_slice(), self.framing) {
            Ok(frame) => extract_char_from_frame(&frame),
            Err(e) => Err(e),
        };
        proof {
            assert(decoded == spec_extract(old(self)@.frame_bits.push(bit), old(self)@.framing));
        }
        match decoded {
            Err(e) => {
                let ev = self.frame_error_event(e);
                self.frame_bits.clear();
                self.hunting = true;
                proof {
                    assert(self@ =~= spec_step(old(self)@, bit).0);
                }
                Some(ev)
            },
            Ok(byte) => {
                if self.message.len() < MAX_MESSAGE_LEN {
                    self.message.push(byte);
                }
                self.frame_bits.clear();
                self.hunting = true;
                if byte == CARRIAGE_RETURN {
                    self.complete = true;
                    proof {
                        assert(self@ =~= spec_step(old(self)@, bit).0);
                    }
                    Some(MtuEventType::MessageComplete { length: self.message.len() })
                } else {
                    proof {
                        assert(self@ =~= spec_step(old(self)@, bit).0);
                    }
                    Some(
                        MtuEventType::CharacterReceived {
                            ch: byte as char,
                            ascii: byte,
                            message_len: self.message.len(),
                        },
                    )
                }
            },
        }
    }

    /// Builds the diagnostic event for a frame that failed validation.
    fn frame_error_event(&self, e: MtuError) -> (ev: MtuEventType)
        ensures
            ev == spec_frame_error_event(self.frame_bits@, e),
    {
        if self.frame_bits.len() >= 10 {
            let mut ones: usize = 0;
            let mut i: usize = 1;
            while i < 8
                invariant
                    1 <= i <= 8,
                    self.frame_bits@.len() >= 10,
                    ones == spec_ones(self.frame_bits@.subrange(1, i as int)),
                    ones < i,
                decreases 8 - i,
            {
                proof {
                    assert(self.frame_bits@.subrange(1, i + 1).drop_last()
                        == self.frame_bits@.subrange(1, i as int));
                }
                if self.frame_bits[i] == 1 {
                    ones = ones + 1;
                }
                i = i + 1;
            }
            MtuEventType::FramingError {
                error_type: e,
                frame_bits_len: self.frame_bits.len(),
                start_bit: self.frame_bits[0],
                parity_bit: self.frame_bits[8],
                stop_bit: self.frame_bits[9],
                data_ones_count: ones,
                expected_parity: if ones % 2 == 0 {
                    0
                } else {
                    1
                },
            }
        } else {
            MtuEventType::FramingError {
                error_type: e,
                frame_bits_len: self.frame_bits.len(),
                start_bit: 0,
                parity_bit: 0,
                stop_bit: 0,
                data_ones_count: 0,
                expected_parity: 0,
            }
        }
    }

    /// A per-bit timeout or a dropped bit abandons the frame being
    /// gathered and returns to the hunt; message and seal are untouched.
    pub fn on_timeout(&mut self)
        requires
            old(self)@.wf(),
        ensures
            final(self)@ == (ReassemblerModel {
                hunting: true,
                frame_bits: Seq::empty(),
                ..old(self)@
            }),
            final(self)@.wf(),
    {
        self.hunting = true;
        self.frame_bits.clear();
        proof {
            assert(self@ =~= ReassemblerModel {
                hunting: true,
                frame_bits: Seq::empty(),
                ..old(self)@
            });
        }
    }
}

} // verus!
