use meter_link::mtu::config::UartFraming;
use meter_link::mtu::error::MtuError;
use meter_link::mtu::uart_framing::bits_to_frame;
use meter_link::mtu::uart_framing::encode_frame;
use meter_link::mtu::uart_framing::extract_char_from_frame;
use meter_link::mtu::uart_framing::UartFrame;

#[test]
fn bits_per_frame_values() {
    assert_eq!(UartFraming::SevenE1.bits_per_frame(), 10);
    assert_eq!(UartFraming::SevenE2.bits_per_frame(), 11);
}

#[test]
fn round_trip_all_bytes_seven_e1() {
    for b in 0u8..=127 {
        let bits = encode_frame(b, UartFraming::SevenE1);
        assert_eq!(bits.len(), 10);
        let frame = bits_to_frame(bits.as_slice(), UartFraming::SevenE1).unwrap();
        assert_eq!(extract_char_from_frame(&frame), Ok(b));
    }
}

#[test]
fn round_trip_all_bytes_seven_e2() {
    for b in 0u8..=127 {
        let bits = encode_frame(b, UartFraming::SevenE2);
        assert_eq!(bits.len(), 11);
        let frame = bits_to_frame(bits.as_slice(), UartFraming::SevenE2).unwrap();
        assert_eq!(extract_char_from_frame(&frame), Ok(b));
    }
}

#[test]
fn encoding_bits_exact_for_0x41() {
    // 0x41 = 1000001: data bits LSB first are 1,0,0,0,0,0,1; two ones give
    // even parity 0.
    let bits = encode_frame(0x41, UartFraming::SevenE1);
    assert_eq!(bits, vec![0, 1, 0, 0, 0, 0, 0, 1, 0, 1]);
}

#[test]
fn encoding_matches_shifted_bits_and_xor_parity() {
    for b in 0u8..=127 {
        let bits = encode_frame(b, UartFraming::SevenE1);
        let mut xor = 0u8;
        for i in 0..7 {
            assert_eq!(bits[1 + i], (b >> i) & 1);
            xor ^= (b >> i) & 1;
        }
        assert_eq!(bits[8], xor);
    }
}

#[test]
fn seven_e_2_encoding_of_0x55() {
    // 0x55 = 0b1010101 has even parity 0 and must carry two stop bits.
    let bits = encode_frame(0x55, UartFraming::SevenE2);
    assert_eq!(bits, vec![0, 1, 0, 1, 0, 1, 0, 1, 0, 1, 1]);
    let frame = bits_to_frame(bits.as_slice(), UartFraming::SevenE2).unwrap();
    assert_eq!(extract_char_from_frame(&frame), Ok(0x55));
}

#[test]
fn high_bit_is_not_transmitted() {
    let low = encode_frame(0x41, UartFraming::SevenE1);
    let high = encode_frame(0xC1, UartFraming::SevenE1);
    assert_eq!(low, high);
}

#[test]
fn parity_flip_fails_validation() {
    // Flipping any single data bit or the parity bit must be caught.
    for k in 1..=8 {
        let mut bits = encode_frame(0x42, UartFraming::SevenE1);
        bits[k] = 1 - bits[k];
        let frame = bits_to_frame(bits.as_slice(), UartFraming::SevenE1).unwrap();
        assert_eq!(frame.validate(), Err(MtuError::FramingErrorParityMismatch));
    }
}

#[test]
fn consistent_frames_validate() {
    for b in 0u8..=127 {
        let bits = encode_frame(b, UartFraming::SevenE1);
        let frame = bits_to_frame(bits.as_slice(), UartFraming::SevenE1).unwrap();
        assert_eq!(frame.validate(), Ok(()));
    }
}

#[test]
fn invalid_bit_count_is_detected() {
    let bits = vec![0, 1, 1, 1, 1, 1, 1, 1, 1];
    let frame = UartFrame { bits, framing: UartFraming::SevenE1 };
    assert_eq!(frame.validate(), Err(MtuError::FramingErrorInvalidBitCount));
}

#[test]
fn invalid_start_bit_is_detected() {
    let mut bits = encode_frame(0x31, UartFraming::SevenE1);
    bits[0] = 1;
    let frame = bits_to_frame(bits.as_slice(), UartFraming::SevenE1).unwrap();
    assert_eq!(frame.validate(), Err(MtuError::FramingErrorInvalidStartBit));
}

#[test]
fn invalid_stop_bit_is_detected() {
    let mut bits = encode_frame(0x31, UartFraming::SevenE1);
    bits[9] = 0;
    let frame = bits_to_frame(bits.as_slice(), UartFraming::SevenE1).unwrap();
    assert_eq!(frame.validate(), Err(MtuError::FramingErrorInvalidStopBit));
}

#[test]
fn seven_e_2_second_stop_bit_zero_fails() {
    // First stop bit 1, second stop bit 0: must fail as an invalid stop
    // bit even though everything else is consistent.
    let mut bits = encode_frame(0x55, UartFraming::SevenE2);
    assert_eq!(bits[9], 1);
    bits[10] = 0;
    let frame = bits_to_frame(bits.as_slice(), UartFraming::SevenE2).unwrap();
    assert_eq!(frame.validate(), Err(MtuError::FramingErrorInvalidStopBit));
}

#[test]
fn frame_construction_rejects_wrong_sizes() {
    let bits = vec![0u8; 10];
    assert!(UartFrame::new(bits, UartFraming::SevenE2).is_err());
    let bits = vec![0u8; 17];
    assert_eq!(
        bits_to_frame(bits.as_slice(), UartFraming::SevenE1).unwrap_err(),
        MtuError::FramingError
    );
}

#[test]
fn garbage_bit_values_decode_as_zero_when_parity_allows() {
    // A sample that is neither 0 nor 1 counts as 0 for parity and value.
    let mut bits = encode_frame(0x00, UartFraming::SevenE1);
    bits[1] = 2;
    let frame = bits_to_frame(bits.as_slice(), UartFraming::SevenE1).unwrap();
    assert_eq!(extract_char_from_frame(&frame), Ok(0x00));
}
