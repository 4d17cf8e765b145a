use meter_link::meter::config::MeterConfig;
use meter_link::meter::config::MeterType;
use meter_link::meter::pump::MeterPump;
use meter_link::mtu::config::MtuConfig;
use meter_link::mtu::config::UartFraming;
use meter_link::mtu::gpio_mtu::GpioMtu;
use meter_link::mtu::gpio_mtu::MtuEventType;
use meter_link::mtu::queue::BitQueue;
use meter_link::mtu::reassembler::Reassembler;
use meter_link::mtu::uart_framing::encode_frame;

fn meter(msg: &str, enabled: bool) -> MeterPump {
    MeterPump::new(MeterConfig {
        meter_type: MeterType::Sensus,
        response_message: msg.to_string(),
        response_delay_ms: 50,
        enabled,
    })
}

fn mtu(expected: &[u8]) -> GpioMtu {
    let config = MtuConfig {
        baud_rate: 1000,
        expected_message: expected.to_vec(),
        ..MtuConfig::default()
    };
    GpioMtu::new(config)
}

#[test]
fn queue_delivers_in_sampling_order() {
    let mut q = BitQueue::new(8);
    for bit in [1u8, 0, 0, 1, 1] {
        assert!(q.try_send(bit));
    }
    let mut out: Vec<u8> = Vec::new();
    while let Some(bit) = q.try_receive() {
        out.push(bit);
    }
    assert_eq!(out, vec![1, 0, 0, 1, 1]);
}

#[test]
fn full_queue_drops_without_panicking() {
    let mut q = BitQueue::new(2);
    assert!(q.try_send(1));
    assert!(q.try_send(0));
    assert!(!q.try_send(1));
    assert_eq!(q.len(), 2);
    assert_eq!(q.try_receive(), Some(1));
    assert!(q.try_send(1));
}

fn feed(r: &mut Reassembler, bits: &[u8]) -> Vec<MtuEventType> {
    let mut events = Vec::new();
    for &bit in bits {
        if let Some(ev) = r.on_bit(bit) {
            events.push(ev);
        }
    }
    events
}

#[test]
fn reassembler_decodes_idle_separated_frames() {
    let mut r = Reassembler::new(UartFraming::SevenE1);
    let mut wire: Vec<u8> = vec![1; 12];
    wire.extend(encode_frame(0x41, UartFraming::SevenE1));
    wire.extend(vec![1; 3]);
    wire.extend(encode_frame(0x0D, UartFraming::SevenE1));
    let events = feed(&mut r, &wire);
    assert!(r.is_complete());
    assert_eq!(r.message(), &vec![0x41, 0x0D]);
    assert_eq!(events.len(), 2);
    assert!(matches!(
        events[0],
        MtuEventType::CharacterReceived { ch: 'A', ascii: 0x41, message_len: 1 }
    ));
    assert!(matches!(events[1], MtuEventType::MessageComplete { length: 2 }));
}

#[test]
fn reassembler_reports_parity_corruption_and_resynchronizes() {
    // The middle character's frame arrives with one data bit flipped on
    // the wire: that frame is dropped with a parity diagnostic, and the
    // final message misses the character.
    let mut r = Reassembler::new(UartFraming::SevenE1);
    let mut wire: Vec<u8> = encode_frame(0x41, UartFraming::SevenE1);
    let mut corrupted = encode_frame(0x42, UartFraming::SevenE1);
    corrupted[2] = 1 - corrupted[2];
    wire.extend(corrupted);
    wire.extend(encode_frame(0x0D, UartFraming::SevenE1));
    let events = feed(&mut r, &wire);
    assert!(r.is_complete());
    assert_eq!(r.message(), &vec![0x41, 0x0D]);
    assert!(matches!(
        events[1],
        MtuEventType::FramingError {
            error_type: meter_link::mtu::error::MtuError::FramingErrorParityMismatch,
            frame_bits_len: 10,
            ..
        }
    ));
}

#[test]
fn reassembler_ignores_everything_after_completion() {
    let mut r = Reassembler::new(UartFraming::SevenE1);
    let wire = encode_frame(0x0D, UartFraming::SevenE1);
    feed(&mut r, &wire);
    assert!(r.is_complete());
    let before = r.message().clone();
    // A long trailing idle, and even new frames, change nothing.
    let mut tail: Vec<u8> = vec![1; 100];
    tail.extend(encode_frame(0x41, UartFraming::SevenE1));
    let events = feed(&mut r, &tail);
    assert!(events.is_empty());
    assert!(r.is_complete());
    assert_eq!(r.message(), &before);
}

#[test]
fn timeout_abandons_partial_frame_and_resynchronizes() {
    let mut r = Reassembler::new(UartFraming::SevenE1);
    // A start bit and four more bits arrive, then the line stalls.
    for &b in [0u8, 1, 0, 0, 1].iter() {
        r.on_bit(b);
    }
    r.on_timeout();
    assert!(!r.is_complete());
    assert_eq!(r.message(), &Vec::<u8>::new());
    // A clean frame afterwards decodes normally.
    let wire = encode_frame(0x0D, UartFraming::SevenE1);
    let events = feed(&mut r, &wire);
    assert!(r.is_complete());
    assert_eq!(r.message(), &vec![0x0D]);
    assert!(matches!(events[0], MtuEventType::MessageComplete { length: 1 }));
}

#[test]
fn dropped_bit_shows_up_as_framing_error() {
    // Losing one sample misaligns the frame; the codec check catches it
    // and the reassembler returns to the hunt.
    let mut r = Reassembler::new(UartFraming::SevenE1);
    let mut wire = encode_frame(0x41, UartFraming::SevenE1);
    wire.remove(3);
    wire.extend(vec![1u8; 10]);
    let events = feed(&mut r, &wire);
    assert!(matches!(events[0], MtuEventType::FramingError { .. }));
    assert!(!r.is_complete());
    assert_eq!(r.message(), &Vec::<u8>::new());
}

#[test]
fn happy_path_two_characters_then_cr() {
    let mut session = mtu(b"AB\r");
    let mut pump = meter("AB\r", true);
    let result = session.run_mtu_operation_with_stats(5_000_000, &mut pump);
    assert!(result.is_ok());
    assert_eq!(session.get_last_message(), Some(b"AB\r".to_vec()));
    assert_eq!(session.get_stats(), (1, 0));
    assert!(!session.is_running());
}

#[test]
fn timeout_with_disabled_meter() {
    // The METER never answers: the transaction runs its full duration,
    // stores nothing, and counts as corrupted.
    let mut session = mtu(b"AB\r");
    let mut pump = meter("AB\r", false);
    let (successful, corrupted) = session.run_test(1, &mut pump).unwrap();
    assert_eq!((successful, corrupted), (0, 1));
    assert_eq!(session.get_last_message(), None);
    assert_eq!(session.get_stats(), (0, 1));
    assert!(!session.is_running());
}

#[test]
fn telegram_without_cr_counts_as_corrupted() {
    // A telegram that never carries a carriage return cannot complete;
    // the last-message slot stays untouched.
    let mut session = mtu(b"AB\r");
    let mut pump = meter("AB", true);
    let (successful, corrupted) = session.run_test(1, &mut pump).unwrap();
    assert_eq!((successful, corrupted), (0, 1));
    assert_eq!(session.get_last_message(), None);
}

#[test]
fn run_test_repeatability_fixed_telegram() {
    // A cooperating METER with a sixteen-character telegram: every one of
    // fifty transactions succeeds, and the reported deltas match the
    // session counters exactly.
    let telegram = "0123456789ABCDE\r";
    let mut session = mtu(telegram.as_bytes());
    let mut pump = meter(telegram, true);
    let (successful, corrupted) = session.run_test(50, &mut pump).unwrap();
    assert_eq!(successful + corrupted, 50);
    assert_eq!((successful, corrupted), (50, 0));
    assert_eq!(session.get_stats(), (50, 0));
}

#[test]
fn run_test_sums_to_iterations_with_mismatch() {
    // The METER answers, but not with the expected telegram: every run
    // grades as corrupted and the sum still matches.
    let mut session = mtu(b"WANTED\r");
    let mut pump = meter("OTHER\r", true);
    let (successful, corrupted) = session.run_test(3, &mut pump).unwrap();
    assert_eq!(successful + corrupted, 3);
    assert_eq!((successful, corrupted), (0, 3));
    assert_eq!(session.get_stats(), (0, 3));
    assert_eq!(session.get_last_message(), Some(b"OTHER\r".to_vec()));
}

#[test]
fn fastest_cycle_time_still_reads_the_telegram() {
    // At the fastest supported clock (one cycle per microsecond) each
    // cycle still samples exactly one bit and the telegram decodes.
    let mut session = mtu(b"Z\r");
    session.set_baud_rate(1_000_000);
    let mut pump = meter("Z\r", true);
    let result = session.run_mtu_operation_with_stats(10_000, &mut pump);
    assert!(result.is_ok());
    assert_eq!(session.get_last_message(), Some(b"Z\r".to_vec()));
    assert_eq!(session.get_stats(), (1, 0));
}

#[test]
fn record_message_result_grades_byte_exactly() {
    let mut session = mtu(b"AB\r");
    assert!(session.record_message_result(Some(b"AB\r".to_vec())));
    assert!(!session.record_message_result(Some(b"AB".to_vec())));
    assert!(!session.record_message_result(Some(b"ab\r".to_vec())));
    assert!(!session.record_message_result(None));
    assert_eq!(session.get_stats(), (1, 3));
}

#[test]
fn configuration_accessors() {
    let mut session = GpioMtu::new(MtuConfig::default());
    assert_eq!(session.get_baud_rate(), 1200);
    session.set_baud_rate(2400);
    assert_eq!(session.get_baud_rate(), 2400);

    session.set_expected_message(b"XY\r".to_vec());
    assert_eq!(session.get_expected_message(), b"XY\r".to_vec());

    assert!(!session.is_running());
    session.start().unwrap();
    assert!(session.is_running());
    session.stop();
    assert!(!session.is_running());

    session.record_message_result(None);
    assert_eq!(session.get_stats(), (0, 1));
    session.reset_stats();
    assert_eq!(session.get_stats(), (0, 0));

    session.clear_last_message();
    assert_eq!(session.get_last_message(), None);

    let copy = session.get_config();
    assert_eq!(copy.baud_rate, 2400);
    assert_eq!(copy.expected_message, b"XY\r".to_vec());
    assert_eq!(copy.framing.bits_per_frame(), 10);
}

#[test]
fn default_config_values() {
    let config = MtuConfig::default();
    assert_eq!(config.cycle_duration_micros, 1000);
    assert_eq!(config.power_up_delay_ms, 10);
    assert_eq!(config.bit_timeout_ms, 2000);
    assert_eq!(config.runtime_micros, 30_000_000);
    assert_eq!(config.baud_rate, 1200);
    assert_eq!(config.bit_duration_micros(), 833);
    assert_eq!(
        config.expected_message,
        b"V;RB00000200;IB61564400;A1000;Z3214;XT0746;MT0683;RR00000000;GX000000;GN000000\r".to_vec()
    );
    assert_eq!((config.successful_reads, config.corrupted_reads), (0, 0));
}

#[test]
fn seven_e_2_end_to_end() {
    // Both sides configured for eleven-bit framing.
    let mut session = GpioMtu::new(MtuConfig {
        baud_rate: 1000,
        framing: UartFraming::SevenE2,
        expected_message: b"U\r".to_vec(),
        ..MtuConfig::default()
    });
    let mut pump = MeterPump::new(MeterConfig {
        meter_type: MeterType::Neptune,
        response_message: "U\r".to_string(),
        response_delay_ms: 50,
        enabled: true,
    });
    let result = session.run_mtu_operation_with_stats(5_000_000, &mut pump);
    assert!(result.is_ok());
    assert_eq!(session.get_last_message(), Some(b"U\r".to_vec()));
    assert_eq!(session.get_stats(), (1, 0));
}
