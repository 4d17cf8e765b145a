use meter_link::cli::parser::CommandParser;
use meter_link::cli::CliCommand;
use meter_link::cli::CliError;

#[test]
fn parse_plain_keywords() {
    assert!(matches!(CommandParser::parse_command("help"), CliCommand::Help));
    assert!(matches!(CommandParser::parse_command("version"), CliCommand::Version));
    assert!(matches!(CommandParser::parse_command("status"), CliCommand::Status));
    assert!(matches!(CommandParser::parse_command("uptime"), CliCommand::Uptime));
    assert!(matches!(CommandParser::parse_command("clear"), CliCommand::Clear));
    assert!(matches!(CommandParser::parse_command("reset"), CliCommand::Reset));
    assert!(matches!(CommandParser::parse_command("button"), CliCommand::Button));
    assert!(matches!(CommandParser::parse_command("temp"), CliCommand::Temp));
    assert!(matches!(CommandParser::parse_command("mtu_stop"), CliCommand::MtuStop));
    assert!(matches!(CommandParser::parse_command("mtu_status"), CliCommand::MtuStatus));
}

#[test]
fn parse_empty_and_whitespace() {
    assert!(matches!(CommandParser::parse_command(""), CliCommand::Empty));
    assert!(matches!(CommandParser::parse_command("   \t "), CliCommand::Empty));
    assert!(matches!(CommandParser::parse_command("  status  "), CliCommand::Status));
}

#[test]
fn parse_unknown_keeps_the_word() {
    match CommandParser::parse_command("frobnicate all the things") {
        CliCommand::Unknown(word) => assert_eq!(word, "frobnicate"),
        other => panic!("expected Unknown, got {:?}", other),
    }
}

#[test]
fn parse_bt_scan_arguments() {
    assert!(matches!(CommandParser::parse_command("bt_scan"), CliCommand::BtScan(None)));
    assert!(matches!(CommandParser::parse_command("bt_scan 30"), CliCommand::BtScan(Some(30))));
    assert!(matches!(CommandParser::parse_command("bt_scan +5"), CliCommand::BtScan(Some(5))));
    match CommandParser::parse_command("bt_scan 0") {
        CliCommand::Unknown(m) => assert_eq!(m, "bt_scan: scan time must be 1-60 seconds"),
        other => panic!("expected Unknown, got {:?}", other),
    }
    match CommandParser::parse_command("bt_scan 61") {
        CliCommand::Unknown(m) => assert_eq!(m, "bt_scan: scan time must be 1-60 seconds"),
        other => panic!("expected Unknown, got {:?}", other),
    }
    match CommandParser::parse_command("bt_scan soon") {
        CliCommand::Unknown(m) => assert_eq!(m, "bt_scan: invalid scan time"),
        other => panic!("expected Unknown, got {:?}", other),
    }
    match CommandParser::parse_command("bt_scan 99999999") {
        CliCommand::Unknown(m) => assert_eq!(m, "bt_scan: invalid scan time"),
        other => panic!("expected Unknown, got {:?}", other),
    }
}

#[test]
fn parse_mtu_start_arguments() {
    assert!(matches!(CommandParser::parse_command("mtu_start"), CliCommand::MtuStart(None)));
    assert!(matches!(
        CommandParser::parse_command("mtu_start 300"),
        CliCommand::MtuStart(Some(300))
    ));
    match CommandParser::parse_command("mtu_start 301") {
        CliCommand::Unknown(m) => assert_eq!(m, "mtu_start: duration must be 1-300 seconds"),
        other => panic!("expected Unknown, got {:?}", other),
    }
    match CommandParser::parse_command("mtu_start never") {
        CliCommand::Unknown(m) => assert_eq!(m, "mtu_start: invalid duration"),
        other => panic!("expected Unknown, got {:?}", other),
    }
}

#[test]
fn parse_led_arguments() {
    assert!(matches!(CommandParser::parse_command("led_on 3"), CliCommand::LedOn(3)));
    assert!(matches!(CommandParser::parse_command("led_off 4"), CliCommand::LedOff(4)));
    match CommandParser::parse_command("led_on 5") {
        CliCommand::Unknown(m) => assert_eq!(m, "led_on: LED must be 3 or 4"),
        other => panic!("expected Unknown, got {:?}", other),
    }
    match CommandParser::parse_command("led_on x") {
        CliCommand::Unknown(m) => assert_eq!(m, "led_on: Invalid LED number"),
        other => panic!("expected Unknown, got {:?}", other),
    }
    match CommandParser::parse_command("led_on") {
        CliCommand::Unknown(m) => assert_eq!(m, "led_on: Missing LED number"),
        other => panic!("expected Unknown, got {:?}", other),
    }
    match CommandParser::parse_command("led_off") {
        CliCommand::Unknown(m) => assert_eq!(m, "led_off: Missing LED number"),
        other => panic!("expected Unknown, got {:?}", other),
    }
}

#[test]
fn parse_echo_joins_with_single_spaces() {
    match CommandParser::parse_command("echo hello   brave\tworld") {
        CliCommand::Echo(text) => assert_eq!(text, "hello brave world"),
        other => panic!("expected Echo, got {:?}", other),
    }
    match CommandParser::parse_command("echo") {
        CliCommand::Echo(text) => assert_eq!(text, ""),
        other => panic!("expected Echo, got {:?}", other),
    }
}

#[test]
fn available_commands_and_autocomplete() {
    let cmds = CommandParser::get_available_commands();
    assert_eq!(cmds.len(), 15);
    assert_eq!(cmds[0], "help");
    assert_eq!(cmds[14], "mtu_status");

    assert_eq!(CommandParser::autocomplete("mtu"), vec!["mtu_start", "mtu_stop", "mtu_status"]);
    assert_eq!(CommandParser::autocomplete("led_o"), vec!["led_on", "led_off"]);
    assert_eq!(CommandParser::autocomplete("zzz"), Vec::<&str>::new());

    // The completion list holds ten entries: with fifteen commands
    // matching the empty prefix, only the first ten come back.
    assert_eq!(
        CommandParser::autocomplete(""),
        vec![
            "help", "version", "status", "uptime", "clear", "reset", "echo", "led_on", "led_off",
            "button"
        ]
    );

    let _parser = CommandParser::new();
}

#[test]
fn cli_error_variants_compare() {
    assert_eq!(CliError::InvalidCommand, CliError::InvalidCommand);
    assert_ne!(CliError::UartError, CliError::BufferFull);
    assert_ne!(CliError::InvalidArgument, CliError::InvalidCommand);
}
