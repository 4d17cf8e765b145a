use meter_link::meter::config::MeterConfig;
use meter_link::meter::config::MeterType;
use meter_link::meter::handler::response_frame_bits;
use meter_link::meter::handler::MeterHandler;
use meter_link::meter::parser::MeterCommand;
use meter_link::meter::parser::MeterCommandParser;
use meter_link::meter::pump::MeterPump;
use meter_link::mtu::config::UartFraming;
use meter_link::mtu::uart_framing::encode_frame;

fn config_with_message(msg: &str) -> MeterConfig {
    MeterConfig {
        meter_type: MeterType::Sensus,
        response_message: msg.to_string(),
        response_delay_ms: 50,
        enabled: true,
    }
}

#[test]
fn meter_type_framing() {
    assert_eq!(MeterType::Sensus.framing(), UartFraming::SevenE1);
    assert_eq!(MeterType::Neptune.framing(), UartFraming::SevenE2);
}

#[test]
fn default_config_telegram() {
    let config = MeterConfig::default();
    assert!(matches!(config.meter_type, MeterType::Sensus));
    assert!(config.enabled);
    let bytes: Vec<u8> = config.response_message.bytes().collect();
    assert_eq!(bytes, vec![0x55, 0x33, 0x0F, 0x0D]);
}

#[test]
fn response_frames_concatenate_per_character() {
    let config = config_with_message("AB\r");
    let bits = response_frame_bits(&config);
    let mut expected = encode_frame(0x41, UartFraming::SevenE1);
    expected.extend(encode_frame(0x42, UartFraming::SevenE1));
    expected.extend(encode_frame(0x0D, UartFraming::SevenE1));
    assert_eq!(bits, expected);
}

#[test]
fn build_uart_frame_uses_the_meter_framing() {
    let handler = MeterHandler::new(config_with_message("\r"));
    let frame = handler.build_uart_frame(0x55, &MeterType::Neptune);
    assert_eq!(frame, encode_frame(0x55, UartFraming::SevenE2));
    let frames = handler.build_response_frames();
    assert_eq!(frames, encode_frame(0x0D, UartFraming::SevenE1));
}

#[test]
fn wake_threshold_is_ten_edges() {
    // After nine edges the data line is untouched (idle HIGH); the tenth
    // rising edge starts the transmission with the start bit LOW.
    let mut pump = MeterPump::new(config_with_message("AB\r"));
    for k in 1..=9u64 {
        assert_eq!(pump.on_rising_edge(k * 1000), None);
    }
    assert_eq!(pump.on_rising_edge(10_000), Some(0));
}

#[test]
fn single_character_buffer_is_fully_transmitted() {
    // A response of one character: ten wake edges, then the remaining nine
    // bits; the whole frame must come out, with no off-by-one after the
    // wake edge.
    let pump_config = config_with_message("\r");
    let frame = encode_frame(0x0D, UartFraming::SevenE1);
    let mut pump = MeterPump::new(pump_config);
    let mut now = 0u64;
    let mut driven: Vec<u8> = Vec::new();
    for _ in 1..=9u64 {
        now += 1000;
        assert_eq!(pump.on_rising_edge(now), None);
    }
    for _ in 0..10 {
        now += 1000;
        driven.push(pump.on_rising_edge(now).expect("a bit per edge while transmitting"));
    }
    assert_eq!(driven, frame);
    // Back to idle: the next nine edges drive nothing.
    for _ in 1..=9u64 {
        now += 1000;
        assert_eq!(pump.on_rising_edge(now), None);
    }
    // A new wake sequence re-arms the same buffer.
    now += 1000;
    assert_eq!(pump.on_rising_edge(now), Some(0));
}

#[test]
fn stalled_transmission_resets_to_idle() {
    let mut pump = MeterPump::new(config_with_message("AB\r"));
    let mut now = 0u64;
    for _ in 1..=12u64 {
        now += 1000;
        pump.on_rising_edge(now);
    }
    // An edge gap beyond the pulse timeout abandons the transmission;
    // that edge counts as the first of a new wake sequence.
    now += 3_000_000;
    assert_eq!(pump.on_rising_edge(now), None);
    for _ in 1..=8u64 {
        now += 1000;
        assert_eq!(pump.on_rising_edge(now), None);
    }
    // Tenth edge since the reset: transmission restarts from bit 0.
    now += 1000;
    assert_eq!(pump.on_rising_edge(now), Some(0));
}

#[test]
fn parse_command_keywords() {
    assert!(matches!(MeterCommandParser::parse_command("help"), MeterCommand::Help));
    assert!(matches!(MeterCommandParser::parse_command("h"), MeterCommand::Help));
    assert!(matches!(MeterCommandParser::parse_command("clear"), MeterCommand::Clear));
    assert!(matches!(MeterCommandParser::parse_command("cls"), MeterCommand::Clear));
    assert!(matches!(MeterCommandParser::parse_command("version"), MeterCommand::Version));
    assert!(matches!(MeterCommandParser::parse_command("ver"), MeterCommand::Version));
    assert!(matches!(MeterCommandParser::parse_command("status"), MeterCommand::Status));
    assert!(matches!(MeterCommandParser::parse_command("stat"), MeterCommand::Status));
    assert!(matches!(MeterCommandParser::parse_command("enable"), MeterCommand::Enable));
    assert!(matches!(MeterCommandParser::parse_command("disable"), MeterCommand::Disable));
    assert!(matches!(MeterCommandParser::parse_command("test"), MeterCommand::Test));
    assert!(matches!(MeterCommandParser::parse_command(""), MeterCommand::Help));
    assert!(matches!(MeterCommandParser::parse_command("   "), MeterCommand::Help));
    assert!(matches!(MeterCommandParser::parse_command("bogus"), MeterCommand::Help));
}

#[test]
fn parse_command_type() {
    assert!(matches!(
        MeterCommandParser::parse_command("type sensus"),
        MeterCommand::SetType(MeterType::Sensus)
    ));
    assert!(matches!(
        MeterCommandParser::parse_command("type s"),
        MeterCommand::SetType(MeterType::Sensus)
    ));
    assert!(matches!(
        MeterCommandParser::parse_command("type neptune"),
        MeterCommand::SetType(MeterType::Neptune)
    ));
    assert!(matches!(
        MeterCommandParser::parse_command("type n"),
        MeterCommand::SetType(MeterType::Neptune)
    ));
    assert!(matches!(MeterCommandParser::parse_command("type x"), MeterCommand::Help));
    assert!(matches!(MeterCommandParser::parse_command("type"), MeterCommand::Help));
}

#[test]
fn parse_command_message_joins_words_and_terminates() {
    match MeterCommandParser::parse_command("message hello   world") {
        MeterCommand::SetMessage(m) => assert_eq!(m, "hello world\r"),
        other => panic!("expected SetMessage, got {:?}", other),
    }
    match MeterCommandParser::parse_command("msg V1.0") {
        MeterCommand::SetMessage(m) => assert_eq!(m, "V1.0\r"),
        other => panic!("expected SetMessage, got {:?}", other),
    }
    assert!(matches!(MeterCommandParser::parse_command("message"), MeterCommand::Help));
}

#[test]
fn available_commands_list() {
    let cmds = MeterCommandParser::available_commands();
    assert_eq!(
        cmds,
        vec!["help", "clear", "version", "status", "type", "message", "enable", "disable", "test"]
    );
}

#[test]
fn execute_enable_disable() {
    let mut handler = MeterHandler::new(config_with_message("AB\r"));
    let reply = handler.execute_command(MeterCommand::Disable, 0).unwrap();
    assert_eq!(reply, "Meter disabled");
    assert!(!handler.config.enabled);
    assert!(!handler.listening);
    let reply = handler.execute_command(MeterCommand::Enable, 0).unwrap();
    assert_eq!(reply, "Meter enabled - listening for MTU wake-up signals");
    assert!(handler.config.enabled);
    assert!(handler.listening);
}

#[test]
fn execute_set_type_and_message() {
    let mut handler = MeterHandler::new(config_with_message("AB\r"));
    let reply = handler.execute_command(MeterCommand::SetType(MeterType::Neptune), 0).unwrap();
    assert_eq!(reply, "Meter type set to: Neptune (7E2)");
    assert!(matches!(handler.config.meter_type, MeterType::Neptune));

    let reply = handler
        .execute_command(MeterCommand::SetMessage("XY\r".to_string()), 0)
        .unwrap();
    assert_eq!(reply, "Response message set to: XY\r");
    assert_eq!(handler.config.response_message, "XY\r");
}

#[test]
fn execute_set_message_refuses_non_ascii() {
    let mut handler = MeterHandler::new(config_with_message("AB\r"));
    let reply = handler
        .execute_command(MeterCommand::SetMessage("h\u{e9}llo\r".to_string()), 0)
        .unwrap();
    assert!(reply.starts_with("Meter commands:"));
    assert_eq!(handler.config.response_message, "AB\r");
}

#[test]
fn execute_version_and_help() {
    let mut handler = MeterHandler::new(config_with_message("AB\r"));
    let reply = handler.execute_command(MeterCommand::Version, 0).unwrap();
    assert_eq!(reply, "Water Meter Simulator v1.0.0");
    let reply = handler.execute_command(MeterCommand::Help, 0).unwrap();
    assert_eq!(
        reply,
        "Meter commands:\r\n  type [sensus|neptune] - Set meter type\r\n  message <text> - Set response message\r\n  enable/disable - Enable/disable meter\r\n  status - Show current config"
    );
    let reply = handler.execute_command(MeterCommand::Clear, 0).unwrap();
    assert_eq!(reply, "");
}

#[test]
fn execute_status_formats_uptime() {
    let mut handler = MeterHandler::new(config_with_message("AB\r"));
    let reply = handler.execute_command(MeterCommand::Status, 3725).unwrap();
    assert_eq!(
        reply,
        "Meter Status:\r\n  Type: Sensus (7E1)\r\n  State: Enabled\r\n  Message: AB\r\r\n  Pins: P0.02 (clock in), P0.03 (data out)\r\n  Uptime: 1h 2m 5s"
    );
    let reply = handler.execute_command(MeterCommand::Status, 125).unwrap();
    assert!(reply.ends_with("Uptime: 2m 5s"));
    let reply = handler.execute_command(MeterCommand::Status, 45).unwrap();
    assert!(reply.ends_with("Uptime: 45s"));
    let reply = handler.execute_command(MeterCommand::Status, 0).unwrap();
    assert!(reply.ends_with("Uptime: 0s"));
}
