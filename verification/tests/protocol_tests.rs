use tn5250r::protocol::{CommandCode, KeyboardState, Packet, ProtocolProcessor, StructuredFieldID};

fn cell(p: &ProtocolProcessor, x: usize, y: usize) -> char {
    p.screen.buffer[y * 80 + x].character
}

fn send(p: &mut ProtocolProcessor, command: CommandCode, data: Vec<u8>) -> Result<Vec<Packet>, String> {
    let packet = Packet::new(command, 0, data);
    p.process_packet(&packet)
}

#[test]
fn legacy_packet_wire_form_counts_the_flags_byte() {
    let packet = Packet::new(CommandCode::WriteToDisplay, 7, vec![1, 2, 3]);
    assert_eq!(packet.to_bytes(), vec![0xF1, 7, 0, 4, 0, 1, 2, 3]);
    let flagged = Packet::new_with_flags(CommandCode::ReadBuffer, 1, Vec::new(), 0x20);
    assert_eq!(flagged.to_bytes(), vec![0xF2, 1, 0, 1, 0x20]);
}

#[test]
fn legacy_packet_parses_header_flags_and_data() {
    let packet = Packet::from_bytes(&[0xF1, 7, 0, 2, 9, 0xAA, 0xBB]).expect("packet");
    assert_eq!(packet.command, CommandCode::WriteToDisplay);
    assert_eq!(packet.sequence_number, 7);
    assert_eq!(packet.flags, 9);
    assert_eq!(packet.data, vec![0xAA, 0xBB]);
    assert!(Packet::from_bytes(&[0xF1, 7, 0]).is_none());
    assert!(Packet::from_bytes(&[0x10, 0, 0, 0]).is_none());
    assert!(Packet::from_bytes(&[0xF1, 0, 0, 9, 0, 1]).is_none());
}

#[test]
fn legacy_packet_with_data_does_not_parse_from_its_own_bytes() {
    let packet = Packet::new(CommandCode::WriteToDisplay, 1, vec![1, 2, 3]);
    assert!(Packet::from_bytes(&packet.to_bytes()).is_none());
}

#[test]
fn legacy_command_codes() {
    for b in 0u8..=255 {
        if let Some(c) = CommandCode::from_u8(b) {
            assert_eq!(c.to_u8(), b);
        }
    }
    assert_eq!(CommandCode::from_u8(0x62), Some(CommandCode::Restore));
    assert_eq!(CommandCode::from_u8(0x00), None);
    assert_eq!(CommandCode::ReadBuffer.get_response_command(), Some(CommandCode::ReadBuffer));
    assert_eq!(CommandCode::WriteToDisplay.get_response_command(), None);
    assert_eq!(StructuredFieldID::from_u8(0x5B), Some(StructuredFieldID::EraseReset));
    assert_eq!(StructuredFieldID::from_u8(0x00), None);
}

#[test]
fn legacy_write_to_display_draws_at_the_cursor() {
    let mut p = ProtocolProcessor::new();
    p.mark_clean();
    assert!(!p.is_dirty());
    let replies = send(&mut p, CommandCode::WriteToDisplay, vec![0xC1, 0xC2]).unwrap();
    assert!(replies.is_empty());
    assert_eq!(cell(&p, 0, 0), 'A');
    assert_eq!(cell(&p, 1, 0), 'B');
    assert_eq!(p.get_cursor_position(), (2, 0));
    assert!(p.is_dirty());
    assert_eq!(p.read_buffer(), b"AB".to_vec());
}

#[test]
fn legacy_write_to_display_moves_and_clears() {
    let mut p = ProtocolProcessor::new();
    send(&mut p, CommandCode::WriteToDisplay, vec![0x1A, 2, 3, 0xC1]).unwrap();
    assert_eq!(cell(&p, 2, 1), 'A');
    assert_eq!(p.get_cursor_position(), (3, 1));
    assert_eq!(p.screen.cursor_x, 3);
    assert_eq!(p.screen.cursor_y, 1);
    send(&mut p, CommandCode::WriteToDisplay, vec![0x5A]).unwrap();
    assert_eq!(cell(&p, 2, 1), ' ');
    assert_eq!(p.get_cursor_position(), (0, 0));
    assert!(p.read_buffer().is_empty());
}

#[test]
fn legacy_structured_field_errors() {
    let mut p = ProtocolProcessor::new();
    assert_eq!(send(&mut p, CommandCode::WriteStructuredField, vec![0, 0xC1]).unwrap_err(), "Structured field too short - missing header");
    assert_eq!(send(&mut p, CommandCode::WriteStructuredField, vec![0, 0xC1, 0, 9, 1]).unwrap_err(), "Invalid structured field length - exceeds data bounds");
    assert_eq!(send(&mut p, CommandCode::WriteStructuredField, vec![0, 0xC1, 0, 1, 5]).unwrap_err(), "Insufficient data for extended attribute");
    assert_eq!(send(&mut p, CommandCode::WriteStructuredField, vec![0; 65536]).unwrap_err(), "Structured field too large - possible DoS attempt");
    assert!(send(&mut p, CommandCode::WriteStructuredField, vec![0, 0xCA, 0, 0]).unwrap().is_empty());
    assert!(send(&mut p, CommandCode::WriteStructuredField, vec![0, 0xC1, 0, 3, 1, 2, 3]).unwrap().is_empty());
}

#[test]
fn legacy_read_buffer_hands_over_the_input() {
    let mut p = ProtocolProcessor::new();
    p.add_input(&[1, 2]);
    send(&mut p, CommandCode::TransferData, vec![3]).unwrap();
    let replies = send(&mut p, CommandCode::ReadBuffer, Vec::new()).unwrap();
    assert_eq!(replies.len(), 1);
    assert_eq!(replies[0].command, CommandCode::ReadBuffer);
    assert_eq!(replies[0].sequence_number, 1);
    assert_eq!(replies[0].data, vec![1, 2, 3]);
    let again = send(&mut p, CommandCode::ReadModified, Vec::new()).unwrap();
    assert_eq!(again[0].command, CommandCode::ReadModified);
    assert_eq!(again[0].sequence_number, 2);
    assert!(again[0].data.is_empty());
}

#[test]
fn legacy_identification_replies() {
    let mut p = ProtocolProcessor::new();
    assert_eq!(p.get_device_id(), "IBM-5555-C01");
    let replies = send(&mut p, CommandCode::WriteToDisplayAndIdentify, vec![0xC1]).unwrap();
    assert_eq!(cell(&p, 0, 0), 'A');
    assert_eq!(replies.len(), 1);
    assert_eq!(replies[0].command, CommandCode::WriteToDisplayAndIdentify);
    assert_eq!(replies[0].data, b"IBM-5555-C01\0".to_vec());
    p.set_device_id("X".to_string());
    p.add_input(&[7]);
    let both = send(&mut p, CommandCode::ReadBufferAndIdentify, Vec::new()).unwrap();
    assert_eq!(both.len(), 2);
    assert_eq!(both[0].command, CommandCode::ReadBuffer);
    assert_eq!(both[0].sequence_number, 2);
    assert_eq!(both[0].data, vec![7]);
    assert_eq!(both[1].sequence_number, 3);
    assert_eq!(both[1].data, b"X\0".to_vec());
}

#[test]
fn legacy_save_then_restore() {
    let mut p = ProtocolProcessor::new();
    send(&mut p, CommandCode::WriteToDisplay, vec![0xC1, 0xC2]).unwrap();
    send(&mut p, CommandCode::Save, Vec::new()).unwrap();
    send(&mut p, CommandCode::WriteToDisplay, vec![0x5A, 0xC3]).unwrap();
    assert_eq!(cell(&p, 0, 0), 'C');
    send(&mut p, CommandCode::Restore, Vec::new()).unwrap();
    assert_eq!(cell(&p, 0, 0), 'A');
    assert_eq!(cell(&p, 1, 0), 'B');
    assert_eq!((p.screen.cursor_x, p.screen.cursor_y), (2, 0));
    assert_eq!(p.get_cursor_position(), (2, 0));
}

#[test]
fn legacy_partial_restore_takes_only_the_region() {
    let mut p = ProtocolProcessor::new();
    send(&mut p, CommandCode::WriteToDisplay, vec![0xC1, 0xC2]).unwrap();
    send(&mut p, CommandCode::SavePartial, vec![0, 0, 0, 0]).unwrap();
    send(&mut p, CommandCode::WriteToDisplay, vec![0x5A, 0xC3, 0xC4]).unwrap();
    send(&mut p, CommandCode::RestorePartial, vec![0, 0, 0, 0]).unwrap();
    assert_eq!(cell(&p, 0, 0), 'A');
    assert_eq!(cell(&p, 1, 0), 'D');
    send(&mut p, CommandCode::RestorePartial, vec![0, 1, 0, 0]).unwrap();
    assert_eq!(cell(&p, 1, 0), 'D');
    send(&mut p, CommandCode::RestorePartial, vec![0, 0, 0, 1]).unwrap();
    assert_eq!(cell(&p, 1, 0), 'B');
}

#[test]
fn legacy_partial_save_needs_a_valid_region() {
    let mut p = ProtocolProcessor::new();
    send(&mut p, CommandCode::WriteToDisplay, vec![0xC1]).unwrap();
    send(&mut p, CommandCode::SavePartial, vec![30, 0, 0, 0]).unwrap();
    send(&mut p, CommandCode::WriteToDisplay, vec![0x5A]).unwrap();
    send(&mut p, CommandCode::Restore, Vec::new()).unwrap();
    assert_eq!(cell(&p, 0, 0), ' ');
}

#[test]
fn legacy_connect_and_disconnect() {
    let mut p = ProtocolProcessor::new();
    p.add_input(&[1]);
    p.set_keyboard_state(KeyboardState::FunctionKey(3));
    assert_eq!(p.get_keyboard_state(), KeyboardState::FunctionKey(3));
    p.connect();
    assert!(p.connected);
    assert_eq!(p.get_keyboard_state(), KeyboardState::Normal);
    assert_eq!(p.read_buffer(), b"ConnectedtoAS/400systemReady...".to_vec());
    assert_eq!(cell(&p, 0, 1), 'R');
    assert_eq!((p.screen.cursor_x, p.screen.cursor_y), (0, 2));
    let replies = send(&mut p, CommandCode::ReadBuffer, Vec::new()).unwrap();
    assert!(replies[0].data.is_empty());
    p.disconnect();
    assert!(!p.connected);
    assert_eq!(p.read_buffer(), b"DisconnectedfromAS/400system".to_vec());
}

#[test]
fn legacy_write_to_display_packet_cuts_characters_to_bytes() {
    let mut p = ProtocolProcessor::new();
    let packet = p.create_write_to_display_packet("Hi\u{141}");
    assert_eq!(packet.command, CommandCode::WriteToDisplay);
    assert_eq!(packet.sequence_number, 1);
    assert_eq!(packet.data, vec![b'H', b'i', 0x41]);
}
