use tn5250r::lib3270::codes::{
    AidKey, CommandCode, OrderCode, AID_ENTER, AID_PF1, ATTR_NUMERIC, ATTR_PROTECTED, CMD_ERASE_WRITE, CMD_WRITE,
    COLOR_RED, DISPLAY_HIDDEN, HIGHLIGHT_BLINK, ORDER_SBA, ORDER_SF, VALIDATION_MANDATORY_ENTRY,
    VALIDATION_MANDATORY_FILL, WCC_RESTORE,
};
use tn5250r::lib3270::display::addressing;
use tn5250r::lib3270::display::{Display3270, ScreenSize};
use tn5250r::lib3270::field::{parse_base_attribute, ExtendedAttributes, FieldAttribute, FieldManager};
use tn5250r::lib3270::protocol::{ProcessorState, ProtocolProcessor3270};

#[test]
fn codes_test_command_code_conversion() {
    assert_eq!(CommandCode::from_u8(CMD_WRITE), Some(CommandCode::Write));
    assert_eq!(CommandCode::Write.to_u8(), CMD_WRITE);
    assert_eq!(CommandCode::from_u8(0xFF), None);
}

#[test]
fn codes_test_order_code_conversion() {
    assert_eq!(OrderCode::from_u8(ORDER_SF), Some(OrderCode::StartField));
    assert_eq!(OrderCode::StartField.to_u8(), ORDER_SF);
    assert_eq!(OrderCode::from_u8(0xFF), None);
}

#[test]
fn test_aid_key_conversion() {
    assert_eq!(AidKey::from_u8(AID_ENTER), Some(AidKey::Enter));
    assert_eq!(AidKey::Enter.to_u8(), AID_ENTER);
    assert_eq!(AidKey::from_u8(AID_PF1), Some(AidKey::PF1));
    assert_eq!(AidKey::PF1.to_u8(), AID_PF1);
}

#[test]
fn test_field_attribute_bits() {
    let protected_numeric = ATTR_PROTECTED | ATTR_NUMERIC;
    assert_eq!(protected_numeric & ATTR_PROTECTED, ATTR_PROTECTED);
    assert_eq!(protected_numeric & ATTR_NUMERIC, ATTR_NUMERIC);
}

#[test]
fn test_screen_size_model2() {
    let size = ScreenSize::Model2;
    assert_eq!(size.rows(), 24);
    assert_eq!(size.cols(), 80);
    assert_eq!(size.buffer_size(), 1920);
}

#[test]
fn test_screen_size_coords() {
    let size = ScreenSize::Model2;
    assert_eq!(size.address_to_coords(0), (0, 0));
    assert_eq!(size.address_to_coords(80), (1, 0));
    assert_eq!(size.address_to_coords(81), (1, 1));

    assert_eq!(size.coords_to_address(0, 0), 0);
    assert_eq!(size.coords_to_address(1, 0), 80);
    assert_eq!(size.coords_to_address(1, 1), 81);
}

#[test]
fn test_display_creation() {
    let display = Display3270::new();
    assert_eq!(display.rows(), 24);
    assert_eq!(display.cols(), 80);
    assert_eq!(display.cursor_address(), 0);
}

#[test]
fn test_display_write_char() {
    let mut display = Display3270::new();
    display.write_char(0xC1);
    assert_eq!(display.cursor_address(), 1);
    assert_eq!(display.read_char_at(0), Some(0xC1));
}

#[test]
fn test_display_cursor_position() {
    let mut display = Display3270::new();
    display.set_cursor(81);
    let (row, col) = display.cursor_position();
    assert_eq!(row, 1);
    assert_eq!(col, 1);
}

#[test]
fn test_addressing_12bit() {
    let (b1, b2) = addressing::encode_12bit_address(100);
    let decoded = addressing::decode_12bit_address(b1, b2);
    assert_eq!(decoded, 100);
}

#[test]
fn test_addressing_14bit() {
    let (b1, b2) = addressing::encode_14bit_address(3000);
    let decoded = addressing::decode_14bit_address(b1, b2);
    assert_eq!(decoded, 3000);
}

#[test]
fn test_field_attribute_protected() {
    let attr = FieldAttribute::new(0, ATTR_PROTECTED);
    assert!(attr.is_protected());
    assert!(!attr.is_numeric());
}

#[test]
fn test_field_attribute_numeric() {
    let attr = FieldAttribute::new(0, ATTR_NUMERIC);
    assert!(!attr.is_protected());
    assert!(attr.is_numeric());
}

#[test]
fn test_field_attribute_hidden() {
    let attr = FieldAttribute::new(0, DISPLAY_HIDDEN);
    assert!(attr.is_hidden());
    assert!(!attr.is_intensified());
}

#[test]
fn test_field_attribute_mdt() {
    let mut attr = FieldAttribute::new(0, 0);
    assert!(!attr.is_modified());

    attr.set_modified(true);
    assert!(attr.is_modified());

    attr.set_modified(false);
    assert!(!attr.is_modified());
}

#[test]
fn test_parse_base_attribute() {
    let info = parse_base_attribute(ATTR_PROTECTED | ATTR_NUMERIC);
    assert!(info.protected);
    assert!(info.numeric);
    assert!(!info.modified);
}

#[test]
fn test_extended_attributes_builder() {
    let attrs = ExtendedAttributes::new().with_highlighting(HIGHLIGHT_BLINK).with_foreground(COLOR_RED);

    assert_eq!(attrs.highlighting, Some(HIGHLIGHT_BLINK));
    assert_eq!(attrs.foreground_color, Some(COLOR_RED));
    assert_eq!(attrs.background_color, None);
}

#[test]
fn test_field_manager() {
    let mut manager = FieldManager::new();

    manager.add_field(FieldAttribute::new(100, ATTR_PROTECTED));
    manager.add_field(FieldAttribute::new(200, ATTR_NUMERIC));

    assert_eq!(manager.fields().len(), 2);

    let field = manager.find_field_at(150);
    assert!(field.is_some());
    assert_eq!(field.unwrap().address, 100);
}

#[test]
fn test_field_manager_calculate_lengths() {
    let mut manager = FieldManager::new();

    manager.add_field(FieldAttribute::new(0, 0));
    manager.add_field(FieldAttribute::new(100, 0));
    manager.add_field(FieldAttribute::new(200, 0));

    let result = manager.calculate_field_lengths(1920);
    assert!(result.is_ok());

    assert_eq!(manager.fields()[0].length, 100);
    assert_eq!(manager.fields()[1].length, 100);
    assert_eq!(manager.fields()[2].length, 1720);
}

#[test]
fn test_field_length_validation_errors() {
    let mut manager = FieldManager::new();

    manager.add_field(FieldAttribute::new(2000, 0));

    let result = manager.calculate_field_lengths(1920);
    assert!(result.is_err());
    assert!(result.unwrap_err().contains("exceeds buffer size"));
}

#[test]
fn test_field_validation_mandatory_fill() {
    let mut attr = FieldAttribute::new(0, 0);
    attr.extended_attrs.validation = Some(VALIDATION_MANDATORY_FILL);
    attr.length = 5;

    assert!(attr.validate_content(&[]).is_err());
    assert!(attr.validate_content(&[0xC1, 0xC2]).is_err());
    assert!(attr.validate_content(&[0xC1, 0xC2, 0xC3, 0xC4, 0xC5]).is_ok());
}

#[test]
fn test_field_validation_mandatory_entry() {
    let mut attr = FieldAttribute::new(0, 0);
    attr.extended_attrs.validation = Some(VALIDATION_MANDATORY_ENTRY);

    assert!(attr.validate_content(&[]).is_err());
    assert!(attr.validate_content(&[0x40, 0x40]).is_err());
    assert!(attr.validate_content(&[0xC1]).is_ok());
}

#[test]
fn test_field_validation_numeric() {
    let attr = FieldAttribute::new(0, ATTR_NUMERIC);

    assert!(attr.validate_content(&[0xF1, 0xF2, 0xF3]).is_ok());
    assert!(attr.validate_content(&[0xC1, 0xC2]).is_err());
    assert!(attr.validate_content(&[0xF1, 0xC1]).is_err());
}

#[test]
fn test_processor_creation() {
    let processor = ProtocolProcessor3270::new();
    assert_eq!(processor.state(), ProcessorState::Ready);
}

#[test]
fn test_write_command_with_wcc() {
    let mut processor = ProtocolProcessor3270::new();
    let mut display = Display3270::new();

    let data = vec![CMD_WRITE, WCC_RESTORE, 0xC1, 0xC2];

    let result = processor.process_data(&data, &mut display);
    assert!(result.is_ok());
    assert!(!display.is_keyboard_locked());
}

#[test]
fn test_erase_write_command() {
    let mut processor = ProtocolProcessor3270::new();
    let mut display = Display3270::new();

    display.write_char(0xC1);

    let data = vec![CMD_ERASE_WRITE, 0x00];

    let result = processor.process_data(&data, &mut display);
    assert!(result.is_ok());

    assert_eq!(display.cursor_address(), 0);
}

#[test]
fn test_set_buffer_address_order() {
    let mut processor = ProtocolProcessor3270::new();
    let mut display = Display3270::new();

    let (b1, b2) = addressing::encode_12bit_address(100);
    let data = vec![CMD_WRITE, 0x00, ORDER_SBA, b1, b2];

    let result = processor.process_data(&data, &mut display);
    assert!(result.is_ok());
    assert_eq!(display.cursor_address(), 100);
}

#[test]
fn test_start_field_order() {
    let mut processor = ProtocolProcessor3270::new();
    let mut display = Display3270::new();

    let data = vec![CMD_WRITE, 0x00, ORDER_SF, ATTR_PROTECTED | ATTR_NUMERIC];

    let result = processor.process_data(&data, &mut display);
    assert!(result.is_ok());

    assert_eq!(display.field_manager().fields().len(), 1);
}

#[test]
fn test_read_buffer_response() {
    let processor = ProtocolProcessor3270::new();
    let display = Display3270::new();

    let response = processor.create_read_buffer_response(&display, AidKey::Enter);

    assert!(response.len() >= 3);
    assert_eq!(response[0], AID_ENTER);
}

#[test]
fn test_erase_unprotected_spares_protected_fields() {
    let mut d = Display3270::new();
    // A protected field at 10 and an unprotected one at 20.
    d.set_field_attribute(10, FieldAttribute::new(10, 0x20));
    d.set_field_attribute(20, FieldAttribute::new(20, 0x00));
    for a in 11u16..20 {
        d.write_char_at(a, 0xC1);
    }
    for a in 21u16..30 {
        d.write_char_at(a, 0xC2);
    }
    d.set_cursor(5);
    d.erase_unprotected_to_address(25);
    for a in 11u16..20 {
        assert_eq!(d.read_char_at(a), Some(0xC1));
    }
    for a in 21u16..=25 {
        assert_eq!(d.read_char_at(a), Some(0x00));
    }
    assert_eq!(d.read_char_at(26), Some(0xC2));
    assert_eq!(d.cursor_address(), 26);
}
