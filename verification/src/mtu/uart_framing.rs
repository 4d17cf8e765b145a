use vstd::prelude::*;

use crate::mtu::config::spec_bits_per_frame;
use crate::mtu::config::UartFraming;
use crate::mtu::error::MtuError;
use crate::mtu::error::MtuResult;

verus! {

/// Bit `i` of byte `b`, as the bit value 0 or 1.
pub open spec fn spec_bit(b: u8, i: u8) -> u8 {
    (b >> i) & 1
}

/// Number of elements equal to 1 in a bit sequence.
pub open spec fn spec_ones(s: Seq<u8>) -> int
    decreases s.len(),
{
    if s.len() == 0 {
        0
    } else {
        spec_ones(s.drop_last()) + if s.last() == 1 { 1int } else { 0int }
    }
}

/// Even-parity bit of the low seven bits of `b`: the count of 1 bits,
/// modulo 2.
pub open spec fn spec_parity(b: u8) -> u8 {
    ((spec_bit(b, 0) + spec_bit(b, 1) + spec_bit(b, 2) + spec_bit(b, 3) + spec_bit(b, 4)
        + spec_bit(b, 5) + spec_bit(b, 6)) % 2) as u8
}

/// The seven data bits of `b`, least significant first.
pub open spec fn spec_data_bits(b: u8) -> Seq<u8> {
    Seq::new(7, |i: int| spec_bit(b, i as u8))
}

/// On-wire frame of byte `b`: start bit 0, seven data bits LSB first, even
/// parity, one stop bit 1, and a second stop bit 1 for 11-bit framing. Only
/// the low seven bits of `b` are carried.
pub open spec fn spec_encode(b: u8, f: UartFraming) -> Seq<u8> {
    let core = seq![0u8] + spec_data_bits(b) + seq![spec_parity(b)] + seq![1u8];
    match f {
        UartFraming::SevenE1 => core,
        UartFraming::SevenE2 => core + seq![1u8],
    }
}

/// Validation of a candidate frame, with the error precedence of the
/// reassembler: bit count first, then start bit, stop bits, parity.
pub open spec fn spec_validate(bits: Seq<u8>, f: UartFraming) -> MtuResult<()> {
    if bits.len() != spec_bits_per_frame(f) {
        Err(MtuError::FramingErrorInvalidBitCount)
    } else if bits[0] != 0 {
        Err(MtuError::FramingErrorInvalidStartBit)
    } else if bits[9] != 1 || (f == UartFraming::SevenE2 && bits[10] != 1) {
        Err(MtuError::FramingErrorInvalidStopBit)
    } else if bits[8] != (spec_ones(bits.subrange(1, 8)) % 2) as u8 {
        Err(MtuError::FramingErrorParityMismatch)
    } else {
        Ok(())
    }
}

/// Value carried by a validated frame: sum of the data bits weighted LSB
/// first. Always in [0, 127]. An element that is neither 0 nor 1 counts
/// as 0, as it does in the decoder.
pub open spec fn spec_decoded_value(bits: Seq<u8>) -> u8 {
    ((if bits[1] == 1 { 1int } else { 0 }) + (if bits[2] == 1 { 2int } else { 0 })
        + (if bits[3] == 1 { 4int } else { 0 }) + (if bits[4] == 1 { 8int } else { 0 })
        + (if bits[5] == 1 { 16int } else { 0 }) + (if bits[6] == 1 { 32int } else { 0 })
        + (if bits[7] == 1 { 64int } else { 0 })) as u8
}

/// Result of decoding a candidate frame: validation error, or the byte.
pub open spec fn spec_extract(bits: Seq<u8>, f: UartFraming) -> MtuResult<u8> {
    match spec_validate(bits, f) {
        Err(e) => Err(e),
        Ok(()) => Ok(spec_decoded_value(bits)),
    }
}

/// The count of 1 bits in a seven-element sequence, written out.
proof fn lemma_ones7(s: Seq<u8>)
    requires
        s.len() == 7,
    ensures
        spec_ones(s) == (if s[0] == 1 { 1int } else { 0 }) + (if s[1] == 1 { 1int } else { 0 }) + (
        if s[2] == 1 {
            1int
        } else {
            0
        }) + (if s[3] == 1 { 1int } else { 0 }) + (if s[4] == 1 { 1int } else { 0 }) + (
        if s[5] == 1 {
            1int
        } else {
            0
        }) + (if s[6] == 1 { 1int } else { 0 }),
{
    let t6 = s.drop_last();
    let t5 = t6.drop_last();
    let t4 = t5.drop_last();
    let t3 = t4.drop_last();
    let t2 = t3.drop_last();
    let t1 = t2.drop_last();
    let t0 = t1.drop_last();
    assert(t0.len() == 0);
    assert(spec_ones(s) == spec_ones(t6) + if s[6] == 1 { 1int } else { 0 });
    assert(spec_ones(t6) == spec_ones(t5) + if s[5] == 1 { 1int } else { 0 });
    assert(spec_ones(t5) == spec_ones(t4) + if s[4] == 1 { 1int } else { 0 });
    assert(spec_ones(t4) == spec_ones(t3) + if s[3] == 1 { 1int } else { 0 });
    assert(spec_ones(t3) == spec_ones(t2) + if s[2] == 1 { 1int } else { 0 });
    assert(spec_ones(t2) == spec_ones(t1) + if s[1] == 1 { 1int } else { 0 });
    assert(spec_ones(t1) == spec_ones(t0) + if s[0] == 1 { 1int } else { 0 });
}

/// How one update changes the count of 1 bits.
proof fn lemma_ones_update(s: Seq<u8>, k: int, v: u8)
    requires
        0 <= k < s.len(),
    ensures
        spec_ones(s.update(k, v)) == spec_ones(s) - (if s[k] == 1 { 1int } else { 0 }) + (
        if v == 1 {
            1int
        } else {
            0
        }),
    decreases s.len(),
{
    let t = s.update(k, v);
    if k == s.len() - 1 {
        assert(t.drop_last() =~= s.drop_last());
    } else {
        assert(t.drop_last() =~= s.drop_last().update(k, v));
        lemma_ones_update(s.drop_last(), k, v);
    }
}

/// Codec round trip: every 7-bit byte decodes back from its own frame.
pub proof fn lemma_encode_round_trip(b: u8, f: UartFraming)
    requires
        b <= 127,
    ensures
        spec_extract(spec_encode(b, f), f) == Ok::<u8, MtuError>(b),
{
    let bits = spec_encode(b, f);
    assert(bits.len() == spec_bits_per_frame(f));
    assert(bits[0] == 0);
    assert(bits[9] == 1);
    if f == UartFraming::SevenE2 {
        assert(bits[10] == 1);
    }
    assert(bits.subrange(1, 8) =~= spec_data_bits(b));
    lemma_ones7(spec_data_bits(b));
    assert(forall|i: u8| i < 7 ==> #[trigger] spec_bit(b, i) <= 1) by (bit_vector);
    assert(spec_ones(bits.subrange(1, 8)) == spec_bit(b, 0) + spec_bit(b, 1) + spec_bit(b, 2)
        + spec_bit(b, 3) + spec_bit(b, 4) + spec_bit(b, 5) + spec_bit(b, 6));
    assert(bits[8] == spec_parity(b));
    assert(spec_validate(bits, f) == Ok::<(), MtuError>(()));
    assert(((b >> 0) & 1) + 2 * ((b >> 1) & 1) + 4 * ((b >> 2) & 1) + 8 * ((b >> 3) & 1) + 16 * ((b
        >> 4) & 1) + 32 * ((b >> 5) & 1) + 64 * ((b >> 6) & 1) == b) by (bit_vector)
        requires
            b <= 127,
    ;
    assert(spec_decoded_value(bits) == b);
}

/// The parity bit of a frame equals the exclusive-or of the seven data
/// bits.
pub proof fn lemma_parity_is_xor(b: u8)
    ensures
        spec_parity(b) == (spec_bit(b, 0) ^ spec_bit(b, 1) ^ spec_bit(b, 2) ^ spec_bit(b, 3)
            ^ spec_bit(b, 4) ^ spec_bit(b, 5) ^ spec_bit(b, 6)),
{
    assert((((b >> 0) & 1) + ((b >> 1) & 1) + ((b >> 2) & 1) + ((b >> 3) & 1) + ((b >> 4) & 1) + ((b
        >> 5) & 1) + ((b >> 6) & 1)) % 2 == ((b >> 0) & 1) ^ ((b >> 1) & 1) ^ ((b >> 2) & 1) ^ ((b
        >> 3) & 1) ^ ((b >> 4) & 1) ^ ((b >> 5) & 1) ^ ((b >> 6) & 1)) by (bit_vector);
}

/// A frame whose start bit is 0, whose stop bits are 1 and whose parity
/// bit agrees with its data bits always validates.
pub proof fn lemma_validate_consistent(bits: Seq<u8>, f: UartFraming)
    requires
        bits.len() == spec_bits_per_frame(f),
        bits[0] == 0,
        bits[9] == 1,
        f == UartFraming::SevenE2 ==> bits[10] == 1,
        bits[8] == (spec_ones(bits.subrange(1, 8)) % 2) as u8,
    ensures
        spec_validate(bits, f) == Ok::<(), MtuError>(()),
{
}

/// Flipping any single data bit, or the parity bit, of a validated frame
/// of 0/1 bit values makes validation fail with a parity mismatch.
pub proof fn lemma_single_flip_parity_mismatch(bits: Seq<u8>, f: UartFraming, k: int)
    requires
        spec_validate(bits, f) == Ok::<(), MtuError>(()),
        forall|i: int| 0 <= i < bits.len() ==> bits[i] == 0 || bits[i] == 1,
        1 <= k <= 8,
    ensures
        spec_validate(bits.update(k, (1 - bits[k]) as u8), f) == Err::<(), MtuError>(
            MtuError::FramingErrorParityMismatch,
        ),
{
    let flipped = bits.update(k, (1 - bits[k]) as u8);
    assert(flipped.len() == bits.len());
    assert(flipped[0] == 0);
    assert(flipped[9] == 1);
    if k == 8 {
        assert(flipped.subrange(1, 8) =~= bits.subrange(1, 8));
        assert(flipped[8] != bits[8]);
    } else {
        assert(flipped.subrange(1, 8) =~= bits.subrange(1, 8).update(k - 1, (1 - bits[k]) as u8));
        lemma_ones_update(bits.subrange(1, 8), k - 1, (1 - bits[k]) as u8);
        assert(flipped[8] == bits[8]);
    }
}

/// Under 11-bit framing, a frame whose first stop bit is 1 but whose
/// second stop bit is 0 fails validation as an invalid stop bit.
pub proof fn lemma_seven_e_2_second_stop_bit(bits: Seq<u8>)
    requires
        bits.len() == 11,
        bits[0] == 0,
        bits[9] == 1,
        bits[10] == 0,
    ensures
        spec_validate(bits, UartFraming::SevenE2) == Err::<(), MtuError>(
            MtuError::FramingErrorInvalidStopBit,
        ),
{
}

/// One candidate character frame: the gathered bits and the framing they
/// are judged under.
#[derive(Debug)]
pub struct UartFrame {
    pub bits: Vec<u8>,
    pub framing: UartFraming,
}

impl UartFrame {
    /// A frame may only be formed from exactly `bits_per_frame` bits.
    pub fn new(bits: Vec<u8>, framing: UartFraming) -> (r: MtuResult<UartFrame>)
        ensures
            bits@.len() == spec_bits_per_frame(framing) ==> (r matches Ok(fr) && fr.bits@
                == bits@ && fr.framing == framing),
            bits@.len() != spec_bits_per_frame(framing) ==> r == Err::<UartFrame, MtuError>(
                MtuError::FramingError,
            ),
    {
        if bits.len() != framing.bits_per_frame() {
            return Err(MtuError::FramingError);
        }
        Ok(UartFrame { bits, framing })
    }

    /// Checks bit count, start bit, stop bits and even parity, in that
    /// order.
    pub fn validate(&self) -> (r: MtuResult<()>)
        ensures
            r == spec_validate(self.bits@, self.framing),
    {
        let expected_bits = self.framing.bits_per_frame();
        if self.bits.len() != expected_bits {
            return Err(MtuError::FramingErrorInvalidBitCount);
        }

        // Start bit must be 0.
        if self.bits[0] != 0 {
            return Err(MtuError::FramingErrorInvalidStartBit);
        }

        // Stop bits must be 1.
        match self.framing {
            UartFraming::SevenE1 => {
                if self.bits[9] != 1 {
                    return Err(MtuError::FramingErrorInvalidStopBit);
                }
            },
            UartFraming::SevenE2 => {
                if self.bits[9] != 1 || self.bits[10] != 1 {
                    return Err(MtuError::FramingErrorInvalidStopBit);
                }
            },
        }

        // Even parity over the seven data bits.
        let mut data_ones: usize = 0;
        let mut i: usize = 1;
        while i < 8
            invariant
                1 <= i <= 8,
                self.bits@.len() >= 10,
                data_ones == spec_ones(self.bits@.subrange(1, i as int)),
                data_ones < i,
            decreases 8 - i,
        {
            proof {
                assert(self.bits@.subrange(1, i + 1).drop_last() == self.bits@.subrange(
                    1,
                    i as int,
                ));
            }
            if self.bits[i] == 1 {
                data_ones = data_ones + 1;
            }
            i = i + 1;
        }
        let expected_parity: u8 = if data_ones % 2 == 0 {
            0
        } else {
            1
        };

        if self.bits[8] != expected_parity {
            return Err(MtuError::FramingErrorParityMismatch);
        }

        Ok(())
    }
}

/// Decodes a validated frame to the character value its data bits carry.
/// The value is 7-bit ASCII: always in [0, 127].
pub fn extract_char_from_frame(frame: &UartFrame) -> (r: MtuResult<u8>)
    ensures
        r == spec_extract(frame.bits@, frame.framing),
        r matches Ok(b) ==> b <= 127,
{
    match frame.validate() {
        Err(e) => Err(e),
        Ok(()) => {
            // The seven data bits are bits 1..8 of the frame.
            let mut char_value: u8 = 0;
            if frame.bits[1] == 1 {
                char_value = char_value + 1;
            }
            if frame.bits[2] == 1 {
                char_value = char_value + 2;
            }
            if frame.bits[3] == 1 {
                char_value = char_value + 4;
            }
            if frame.bits[4] == 1 {
                char_value = char_value + 8;
            }
            if frame.bits[5] == 1 {
                char_value = char_value + 16;
            }
            if frame.bits[6] == 1 {
                char_value = char_value + 32;
            }
            if frame.bits[7] == 1 {
                char_value = char_value + 64;
            }
            Ok(char_value)
        },
    }
}

/// Copies a bit slice into a frame. The scratch a reassembler gathers into
/// holds at most 16 bits; longer slices are rejected as framing errors, as
/// is any count that does not fill a frame exactly.
pub fn bits_to_frame(bits: &[u8], framing: UartFraming) -> (r: MtuResult<UartFrame>)
    ensures
        (bits@.len() <= 16 && bits@.len() == spec_bits_per_frame(framing)) ==> (r matches Ok(fr)
            && fr.bits@ == bits@ && fr.framing == framing),
        !(bits@.len() <= 16 && bits@.len() == spec_bits_per_frame(framing)) ==> r == Err::<
            UartFrame,
            MtuError,
        >(MtuError::FramingError),
{
    if bits.len() > 16 {
        return Err(MtuError::FramingError);
    }
    let mut frame_bits: Vec<u8> = Vec::new();
    let mut i: usize = 0;
    while i < bits.len()
        invariant
            i <= bits@.len(),
            frame_bits@ == bits@.subrange(0, i as int),
        decreases bits@.len() - i,
    {
        frame_bits.push(bits[i]);
        i = i + 1;
    }
    proof {
        assert(frame_bits@ == bits@);
    }
    UartFrame::new(frame_bits, framing)
}

/// Encodes the low seven bits of `byte` as one on-wire character frame.
pub fn encode_frame(byte: u8, framing: UartFraming) -> (bits: Vec<u8>)
    ensures
        bits@ == spec_encode(byte, framing),
{
    let mut frame: Vec<u8> = Vec::new();

    // Start bit.
    frame.push(0);

    // Data bits, least significant first; only seven are carried.
    let data_7bit: u8 = byte & 0x7F;
    let mut i: u8 = 0;
    let mut ones: u8 = 0;
    while i < 7
        invariant
            i <= 7,
            data_7bit == byte & 0x7F,
            frame@.len() == 1 + i,
            frame@[0] == 0,
            forall|j: int| 1 <= j <= i ==> #[trigger] frame@[j] == spec_bit(byte, (j - 1) as u8),
            ones <= i,
            ones as int == spec_bit(byte, 0) * (if i >= 1 { 1int } else { 0 }) + spec_bit(byte, 1)
                * (if i >= 2 { 1int } else { 0 }) + spec_bit(byte, 2) * (
            if i >= 3 {
                1int
            } else {
                0
            }) + spec_bit(byte, 3) * (if i >= 4 { 1int } else { 0 }) + spec_bit(byte, 4) * (
            if i >= 5 {
                1int
            } else {
                0
            }) + spec_bit(byte, 5) * (if i >= 6 { 1int } else { 0 }) + spec_bit(byte, 6) * (
            if i >= 7 {
                1int
            } else {
                0
            }),
        decreases 7 - i,
    {
        let bit: u8 = (data_7bit >> i) & 1;
        proof {
            assert(bit == (byte >> i) & 1 && bit <= 1) by (bit_vector)
                requires
                    data_7bit == byte & 0x7F && bit == (data_7bit >> i) & 1 && i < 7,
            ;
            assert(bit == spec_bit(byte, i));
        }
        frame.push(bit);
        ones = ones + bit;
        i = i + 1;
    }

    // Even parity over the data bits, then the stop bits.
    let parity: u8 = ones % 2;
    frame.push(parity);
    frame.push(1);
    match framing {
        UartFraming::SevenE1 => {},
        UartFraming::SevenE2 => {
            frame.push(1);
        },
    }
    proof {
        assert(frame@ =~= spec_encode(byte, framing));
    }
    frame
}

} // verus!
