use tn5250r::lib5250::protocol::{parse_5250_stream, FieldType, ProtocolParser, RecordedCall, StateRecorder};
use tn5250r::lib5250::codes::{
    get_error_message, CommandCode, OrderCode, ATTR_5250_GREEN, ATTR_5250_NORMAL, CMD_WRITE_TO_DISPLAY, ERR_NO_FIELD,
    MSG_NO_FIELD, SOH,
};
use tn5250r::lib5250::field::{detect_fields_from_protocol_data, detect_fields_from_screen, parse_field_attribute};
use tn5250r::lib5250::telnet::{
    negotiate_options, DeviceCapabilities, NegotiationState, TelnetCommand, TelnetNegotiator, TelnetOption, TerminalType,
};
use tn5250r::terminal::{CharAttribute as FieldAttribute, TerminalScreen};

#[test]
fn test_command_code_conversion() {
    assert_eq!(CommandCode::from_u8(CMD_WRITE_TO_DISPLAY), Some(CommandCode::WriteToDisplay));
    assert_eq!(CommandCode::WriteToDisplay.to_u8(), CMD_WRITE_TO_DISPLAY);
    assert_eq!(CommandCode::from_u8(0xFF), None);
}

#[test]
fn test_order_code_conversion() {
    assert_eq!(OrderCode::from_u8(SOH), Some(OrderCode::StartOfHeader));
    assert_eq!(OrderCode::StartOfHeader.to_u8(), SOH);
    assert_eq!(OrderCode::from_u8(0xFF), None);
}

#[test]
fn test_error_messages() {
    assert_eq!(get_error_message(ERR_NO_FIELD), Some(MSG_NO_FIELD));
    assert_eq!(get_error_message(0xFF), None);
}

#[test]
fn test_field_attributes() {
    assert_eq!(ATTR_5250_NORMAL, ATTR_5250_GREEN);
    assert_eq!(ATTR_5250_GREEN, 0x20);
}

#[test]
fn test_detect_fields_with_label() {
    let mut screen = TerminalScreen::new();
    screen.write_string("Name: ______\n");
    let fields = detect_fields_from_screen(&screen);
    assert!(!fields.is_empty());
    assert_eq!(fields[0].attribute, FieldAttribute::Protected);
}

#[test]
fn test_detect_fields_no_label() {
    let mut screen = TerminalScreen::new();
    screen.write_string("No fields here\n");
    let fields = detect_fields_from_screen(&screen);
    assert!(fields.is_empty());
}

#[test]
fn test_parse_field_attribute_protected() {
    let attr = parse_field_attribute(0x20);
    assert_eq!(attr, FieldAttribute::Protected);
}

#[test]
fn test_parse_field_attribute_numeric() {
    let attr = parse_field_attribute(0x10);
    assert_eq!(attr, FieldAttribute::Numeric);
}

#[test]
fn test_parse_field_attribute_normal() {
    let attr = parse_field_attribute(0x00);
    assert_eq!(attr, FieldAttribute::Normal);
}

#[test]
fn test_parse_field_attribute_mandatory() {
    let attr = parse_field_attribute(0x0C);
    assert_eq!(attr, FieldAttribute::Mandatory);
}

#[test]
fn test_detect_fields_from_protocol_data() {
    let data = vec![0x1D, 0x05, 0x20, 0x00, 0x00, 0x00, 0x00, 0x00];

    let fields = detect_fields_from_protocol_data(&data);
    assert_eq!(fields.len(), 1);
    assert_eq!(fields[0].length, 5);
    assert_eq!(fields[0].attribute, FieldAttribute::Protected);
}

#[test]
fn test_negotiate_all_required_options() {
    let options = [TelnetOption::Binary, TelnetOption::EndOfRecord, TelnetOption::SuppressGoAhead];
    assert!(negotiate_options(&options));
}

#[test]
fn test_missing_required_option() {
    let options = [TelnetOption::Binary, TelnetOption::EndOfRecord];
    assert!(!negotiate_options(&options));
}

#[test]
fn test_telnet_negotiator_creation() {
    let negotiator = TelnetNegotiator::new();
    assert!(!negotiator.is_negotiation_complete());
}

#[test]
fn test_complete_negotiation() {
    let mut negotiator = TelnetNegotiator::new();

    let _ = negotiator.process_command(TelnetCommand::Will.to_u8(), TelnetOption::Binary.to_u8());
    let _ = negotiator.process_command(TelnetCommand::Will.to_u8(), TelnetOption::EndOfRecord.to_u8());
    let _ = negotiator.process_command(TelnetCommand::Will.to_u8(), TelnetOption::SuppressGoAhead.to_u8());

    assert!(negotiator.is_negotiation_complete());

    assert_eq!(negotiator.option_states.get(&TelnetOption::Binary), Some(&NegotiationState::Enabled));
    assert_eq!(negotiator.option_states.get(&TelnetOption::EndOfRecord), Some(&NegotiationState::Enabled));
    assert_eq!(negotiator.option_states.get(&TelnetOption::SuppressGoAhead), Some(&NegotiationState::Enabled));
}

#[test]
fn test_terminal_type_subnegotiation() {
    let mut negotiator = TelnetNegotiator::new();
    let response = negotiator.process_subnegotiation(TelnetOption::TerminalType.to_u8(), &[1]).unwrap();
    assert!(response.is_some());
    assert!(negotiator.terminal_type.is_some());
    assert_eq!(negotiator.terminal_type.as_ref().unwrap(), "IBM-5250");
}

#[test]
fn test_environment_var_setting() {
    let mut negotiator = TelnetNegotiator::new();
    negotiator.set_environment_var("USER", "testuser");
    assert_eq!(negotiator.get_environment_vars().get("USER"), Some(&"testuser".to_string()));
}

#[test]
fn test_terminal_type_configuration() {
    let negotiator = TelnetNegotiator::with_terminal_type(TerminalType::IBM5250W);
    assert_eq!(negotiator.configured_terminal_type, TerminalType::IBM5250W);
}

#[test]
fn test_different_terminal_types() {
    let mut negotiator = TelnetNegotiator::with_terminal_type(TerminalType::IBM5555C01);
    let response = negotiator.process_subnegotiation(TelnetOption::TerminalType.to_u8(), &[1]).unwrap();
    assert!(response.is_some());
    assert_eq!(negotiator.terminal_type.as_ref().unwrap(), "IBM-5555-C01");
}

#[test]
fn test_custom_terminal_type() {
    let mut negotiator = TelnetNegotiator::with_terminal_type(TerminalType::Custom("MY-TERMINAL"));
    let response = negotiator.process_subnegotiation(TelnetOption::TerminalType.to_u8(), &[1]).unwrap();
    assert!(response.is_some());
    assert_eq!(negotiator.terminal_type.as_ref().unwrap(), "MY-TERMINAL");
}

#[test]
fn test_new_environ_parsing_rfc1572() {
    let mut negotiator = TelnetNegotiator::new();

    let data = &[0, b'U', b'S', b'E', b'R', 0, 1, b't', b'e', b's', b't', b'u', b's', b'e', b'r', 0];
    negotiator.parse_environment_vars(data);

    assert_eq!(negotiator.get_environment_vars().get("USER"), Some(&"testuser".to_string()));
}

#[test]
fn test_new_environ_multiple_vars() {
    let mut negotiator = TelnetNegotiator::new();

    let data = &[
        0, b'U', b'S', b'E', b'R', 0, 1, b't', b'e', b's', b't', b'u', b's', b'e', b'r', 0, 0, b'P', b'A', b'S', b'S',
        b'W', b'O', b'R', b'D', 0, 1, b's', b'e', b'c', b'r', b'e', b't', 0,
    ];
    negotiator.parse_environment_vars(data);

    assert_eq!(negotiator.get_environment_vars().get("USER"), Some(&"testuser".to_string()));
    assert_eq!(negotiator.get_environment_vars().get("PASSWORD"), Some(&"secret".to_string()));
}

#[test]
fn test_invalid_command_ignored() {
    let mut negotiator = TelnetNegotiator::new();
    let result = negotiator.process_command(255, TelnetOption::Binary.to_u8());
    assert!(result.is_ok() && result.unwrap().is_none());
}

#[test]
fn test_invalid_option_ignored() {
    let mut negotiator = TelnetNegotiator::new();
    let result = negotiator.process_command(TelnetCommand::Will.to_u8(), 255);
    assert!(result.is_ok() && result.unwrap().is_none());
}

#[test]
fn test_malformed_subnegotiation_ignored() {
    let mut negotiator = TelnetNegotiator::new();
    let result = negotiator.process_subnegotiation(TelnetOption::TerminalType.to_u8(), &[]);
    assert!(result.is_ok() && result.unwrap().is_none());
}

#[test]
fn test_device_capabilities() {
    let caps_std = DeviceCapabilities::standard_5250();
    assert!(!caps_std.color_support);
    assert!(!caps_std.extended_attributes);
    assert_eq!(caps_std.screen_size, (24, 80));

    let caps_enhanced = DeviceCapabilities::enhanced_5250();
    assert!(caps_enhanced.color_support);
    assert!(caps_enhanced.extended_attributes);

    let caps_basic = DeviceCapabilities::basic_5250();
    assert!(!caps_basic.color_support);
    assert!(!caps_basic.extended_attributes);

    let caps_printer = DeviceCapabilities::printer_5250();
    assert!(caps_printer.printer_support);
    assert_eq!(caps_printer.screen_size.0, 0);
    assert_eq!(caps_printer.screen_size.1, 132);
}

#[test]
fn test_device_name_management() {
    let mut negotiator = TelnetNegotiator::new();

    negotiator.set_device_name("TEST_DEVICE").unwrap();
    assert_eq!(negotiator.get_device_name(), Some("TEST_DEVICE"));

    let caps = negotiator.get_device_capabilities();
    assert!(!caps.color_support);
    assert_eq!(caps.screen_size.0, 24);
    assert_eq!(caps.screen_size.1, 80);
}

#[test]
fn test_window_size_negotiation() {
    let mut negotiator = TelnetNegotiator::new();

    negotiator.set_window_size(132, 43);
    assert_eq!(negotiator.window_size, Some((132, 43)));

    let window_size_data = vec![0, 84, 0, 43];
    let result = negotiator.process_subnegotiation(TelnetOption::WindowSize.to_u8(), &window_size_data);
    assert!(result.is_ok());
    assert_eq!(negotiator.window_size, Some((84, 43)));
}

#[test]
fn test_charset_support() {
    let mut negotiator = TelnetNegotiator::new();

    let charset_data = vec![1, b'E', b'B', b'C', b'D', b'I', b'C'];
    let result = negotiator.process_subnegotiation(TelnetOption::Charset.to_u8(), &charset_data);
    assert!(result.is_ok());
    assert_eq!(negotiator.charset, Some("\u{1}EBCDIC".to_string()));
}

#[test]
fn test_environment_creation() {
    let mut negotiator = TelnetNegotiator::new();

    negotiator.set_environment_var("DEVNAME", "TN5250R");
    negotiator.set_environment_var("TERM", "IBM-5250");

    let env_response = negotiator.create_environment_response();

    assert!(env_response.is_ok());
    if let Ok(Some(response)) = env_response {
        assert!(response.len() > 10);
    }

    assert_eq!(negotiator.environment_vars.get("DEVNAME"), Some(&"TN5250R".to_string()));
    assert_eq!(negotiator.environment_vars.get("TERM"), Some(&"IBM-5250".to_string()));
}

#[test]
fn test_initialization() {
    let session = tn5250r::lib5250::Session::new();
    assert!(!session.is_authenticated());
}

#[test]
fn test_extract_5250_from_telnet_drops_commands() {
    let session = tn5250r::lib5250::Session::new();
    let data = [1u8, 255, 251, 24, 2, 255, 255, 255, 250, 9, 255, 240, 7, 255];
    assert_eq!(session.extract_5250_from_telnet(&data), vec![1u8, 2, 255, 7, 255]);
    let unterminated = [5u8, 255, 250, 1, 2, 3];
    assert_eq!(session.extract_5250_from_telnet(&unterminated), vec![5u8]);
    let other_command = [255u8, 241, 9];
    assert_eq!(session.extract_5250_from_telnet(&other_command), vec![9u8]);
}

#[test]
fn test_integrated_data_requires_authentication() {
    let mut session = tn5250r::lib5250::Session::new();
    let r = session.process_integrated_data(&[0x41, 0x42]);
    assert_eq!(r, Err("Session authentication required".to_string()));
    let big = vec![0x41u8; 70000];
    assert_eq!(session.process_integrated_data(&big), Err("Command size exceeds maximum allowed".to_string()));
}

#[test]
fn test_integrated_data_detects_plain_text() {
    let mut session = tn5250r::lib5250::Session::new();
    assert_eq!(session.authenticate("user01", "pass1234"), Ok(true));
    let r = session.process_integrated_data(b"HELLO");
    assert_eq!(r, Ok(Vec::new()));
    assert_eq!(session.get_protocol_mode(), tn5250r::network::ProtocolMode::NVT);
    assert_eq!(session.get_fallback_data(), b"HELLO".to_vec());
}

#[test]
fn test_integrated_data_refuses_3270() {
    let mut session = tn5250r::lib5250::Session::new();
    assert_eq!(session.authenticate("user01", "pass1234"), Ok(true));
    session.set_protocol_mode(tn5250r::network::ProtocolMode::TN3270);
    assert_eq!(
        session.process_integrated_data(&[1, 2, 3]),
        Err("TN3270 protocol not supported in TN5250 session".to_string())
    );
}

#[test]
fn test_integrated_data_answers_read_immediate() {
    let mut session = tn5250r::lib5250::Session::new();
    assert_eq!(session.authenticate("user01", "pass1234"), Ok(true));
    session.set_protocol_mode(tn5250r::network::ProtocolMode::TN5250);
    // A Read Immediate packet wrapped in a telnet option exchange.
    let read_immediate = tn5250r::lib5250::codes::CommandCode::ReadImmediate.to_u8();
    let data = [255u8, 253, 24, read_immediate, 7, 0, 0, 0];
    let r = session.process_integrated_data(&data).unwrap();
    assert_eq!(r, vec![read_immediate, 1, 0, 0, 0]);
}

#[test]
fn test_state_parse_calls() {
    let mut st = StateRecorder::new(FieldType::Input);
    st.screen.write_char('X');
    let mut p = ProtocolParser::new(&[0x11, 0x07, 0x1A, 0x05, 0x0A]);
    assert_eq!(p.parse_with_state_trait(&mut st), Ok(()));
    assert_eq!(p.cursor, 5);
    assert_eq!(
        st.recorded,
        vec![RecordedCall::Screen, RecordedCall::SetCursor(0, 0), RecordedCall::SetCursor(4, 9), RecordedCall::DetectFields]
    );
    assert!(!st.screen.to_string().contains('X'));

    let mut st2 = StateRecorder::new(FieldType::Input);
    let mut bad = ProtocolParser::new(&[0x99]);
    assert_eq!(bad.parse_with_state_trait(&mut st2), Err("Invalid command code: 0x99".to_string()));
    assert!(st2.recorded.is_empty());

    let mut st3 = StateRecorder::new(FieldType::Protected);
    assert_eq!(parse_5250_stream(&[0x11, 0x00, 0x11, 0x20], &mut st3), Ok(()));
    assert_eq!(
        st3.recorded,
        vec![RecordedCall::FieldTypeFor(0x20), RecordedCall::AddField(0, 0, 1, 0x20), RecordedCall::DetectFields]
    );
}
