//! The 5250 protocol layer: packets with their header, the packet processor
//! that answers read commands from buffered input, and the data stream
//! parser.

use vstd::prelude::*;
pub use crate::lib5250::codes::CommandCode;
use crate::terminal::TerminalScreen;

verus! {

impl CommandCode {
    /// The command a reply to this one carries: read commands are answered
    /// with the same command, everything else needs no reply.
    pub open spec fn spec_response_command(self) -> Option<CommandCode> {
        match self {
            CommandCode::ReadInputFields | CommandCode::ReadMdtFields | CommandCode::ReadMdtFieldsAlt
            | CommandCode::ReadImmediate | CommandCode::ReadImmediateAlt
            | CommandCode::ReadScreenImmediate | CommandCode::ReadScreenExtended
            | CommandCode::ReadScreenPrint | CommandCode::ReadScreenPrintExtended
            | CommandCode::ReadScreenPrintGrid | CommandCode::ReadScreenPrintExtGrid => Some(self),
            _ => None,
        }
    }

    /// The command a reply to this one carries, if it needs a reply.
    pub fn get_response_command(&self) -> (r: Option<Self>)
        ensures
            r == self.spec_response_command(),
    {
        match self {
            CommandCode::WriteToDisplay => None,
            CommandCode::ReadInputFields => Some(CommandCode::ReadInputFields),
            CommandCode::ReadMdtFields => Some(CommandCode::ReadMdtFields),
            CommandCode::ReadMdtFieldsAlt => Some(CommandCode::ReadMdtFieldsAlt),
            CommandCode::ReadImmediate => Some(CommandCode::ReadImmediate),
            CommandCode::ReadImmediateAlt => Some(CommandCode::ReadImmediateAlt),
            CommandCode::ReadScreenImmediate => Some(CommandCode::ReadScreenImmediate),
            CommandCode::ReadScreenExtended => Some(CommandCode::ReadScreenExtended),
            CommandCode::WriteStructuredField => None,
            CommandCode::SaveScreen => None,
            CommandCode::RestoreScreen => None,
            CommandCode::SavePartialScreen => None,
            CommandCode::RestorePartialScreen => None,
            CommandCode::ClearUnit => None,
            CommandCode::ClearUnitAlternate => None,
            CommandCode::ClearFormatTable => None,
            CommandCode::WriteErrorCode => None,
            CommandCode::WriteErrorCodeWindow => None,
            CommandCode::ReadScreenPrint => Some(CommandCode::ReadScreenPrint),
            CommandCode::ReadScreenPrintExtended => Some(CommandCode::ReadScreenPrintExtended),
            CommandCode::ReadScreenPrintGrid => Some(CommandCode::ReadScreenPrintGrid),
            CommandCode::ReadScreenPrintExtGrid => Some(CommandCode::ReadScreenPrintExtGrid),
            CommandCode::Roll => None,
        }
    }
}

/// 5250 field attribute kinds.
#[derive(Debug, Clone, Copy, PartialEq, Structural)]
pub enum FieldAttribute {
    Normal,
    Intensified,
    Protected,
    Numeric,
    Skip,
    Mandatory,
    DupEnable,
    Hidden,
}

impl FieldAttribute {
    /// The kind given by bits 2 to 5 of an attribute byte.
    pub open spec fn spec_from_byte(value: u8) -> Self {
        let bits = value & 0x3C;
        if bits == 0x20 {
            FieldAttribute::Protected
        } else if bits == 0x10 {
            FieldAttribute::Numeric
        } else if bits == 0x08 {
            FieldAttribute::Skip
        } else if bits == 0x0C {
            FieldAttribute::Mandatory
        } else if bits == 0x04 {
            FieldAttribute::DupEnable
        } else {
            FieldAttribute::Normal
        }
    }

    /// The attribute bits of a kind.
    pub open spec fn spec_byte(self) -> u8 {
        match self {
            FieldAttribute::Normal => 0x00,
            FieldAttribute::Intensified => 0x20,
            FieldAttribute::Protected => 0x20,
            FieldAttribute::Numeric => 0x10,
            FieldAttribute::Skip => 0x08,
            FieldAttribute::Mandatory => 0x0C,
            FieldAttribute::DupEnable => 0x04,
            FieldAttribute::Hidden => 0x0C,
        }
    }

    /// The kind given by bits 2 to 5 of an attribute byte.
    pub fn from_u8(value: u8) -> (r: Self)
        ensures
            r == Self::spec_from_byte(value),
    {
        let bits = value & 0x3C;
        if bits == 0x20 {
            FieldAttribute::Protected
        } else if bits == 0x10 {
            FieldAttribute::Numeric
        } else if bits == 0x08 {
            FieldAttribute::Skip
        } else if bits == 0x0C {
            FieldAttribute::Mandatory
        } else if bits == 0x04 {
            FieldAttribute::DupEnable
        } else {
            FieldAttribute::Normal
        }
    }

    /// The attribute bits of a kind.
    pub fn to_u8(&self) -> (r: u8)
        ensures
            r == self.spec_byte(),
    {
        match self {
            FieldAttribute::Normal => 0x00,
            FieldAttribute::Intensified => 0x20,
            FieldAttribute::Protected => 0x20,
            FieldAttribute::Numeric => 0x10,
            FieldAttribute::Skip => 0x08,
            FieldAttribute::Mandatory => 0x0C,
            FieldAttribute::DupEnable => 0x04,
            FieldAttribute::Hidden => 0x0C,
        }
    }
}

/// Decoding the bits of a kind gives the kind back, except for the two
/// kinds that share their bits with another (Intensified reads as
/// Protected, Hidden as Mandatory).
pub proof fn lemma_field_attribute_roundtrip(a: FieldAttribute)
    ensures
        FieldAttribute::spec_from_byte(a.spec_byte()) == match a {
            FieldAttribute::Intensified => FieldAttribute::Protected,
            FieldAttribute::Hidden => FieldAttribute::Mandatory,
            _ => a,
        },
{
    assert(0x00u8 & 0x3C == 0x00) by (bit_vector);
    assert(0x20u8 & 0x3C == 0x20) by (bit_vector);
    assert(0x10u8 & 0x3C == 0x10) by (bit_vector);
    assert(0x08u8 & 0x3C == 0x08) by (bit_vector);
    assert(0x0Cu8 & 0x3C == 0x0C) by (bit_vector);
    assert(0x04u8 & 0x3C == 0x04) by (bit_vector);
}

/// Structured field identifiers.
#[derive(Debug, Clone, Copy, PartialEq, Structural)]
pub enum StructuredFieldID {
    CreateChangeExtendedAttribute,
    SetExtendedAttributeList,
    ReadText,
    EraseReset,
    DefineExtendedAttribute,
    DefineNamedLogicalUnit,
    DefinePendingOperations,
    DisableCommandRecognition,
    EnableCommandRecognition,
    RequestMinimumTimestampInterval,
    QueryCommand,
    SetReplyMode,
    DefineRollDirection,
    SetMonitorMode,
    CancelRecovery,
}

impl StructuredFieldID {
    /// The identifier's byte.
    pub open spec fn spec_byte(self) -> u8 {
        match self {
            StructuredFieldID::CreateChangeExtendedAttribute => 0xC1,
            StructuredFieldID::SetExtendedAttributeList => 0xCA,
            StructuredFieldID::ReadText => 0xD2,
            StructuredFieldID::EraseReset => 0x5B,
            StructuredFieldID::DefineExtendedAttribute => 0xD3,
            StructuredFieldID::DefineNamedLogicalUnit => 0x7E,
            StructuredFieldID::DefinePendingOperations => 0x80,
            StructuredFieldID::DisableCommandRecognition => 0x81,
            StructuredFieldID::EnableCommandRecognition => 0x82,
            StructuredFieldID::RequestMinimumTimestampInterval => 0x83,
            StructuredFieldID::QueryCommand => 0x84,
            StructuredFieldID::SetReplyMode => 0x85,
            StructuredFieldID::DefineRollDirection => 0x86,
            StructuredFieldID::SetMonitorMode => 0x87,
            StructuredFieldID::CancelRecovery => 0x88,
        }
    }

    /// The identifier with a given byte, if any.
    pub open spec fn spec_from_byte(value: u8) -> Option<Self> {
        if value == 0xC1 {
            Some(StructuredFieldID::CreateChangeExtendedAttribute)
        } else if value == 0xCA {
            Some(StructuredFieldID::SetExtendedAttributeList)
        } else if value == 0xD2 {
            Some(StructuredFieldID::ReadText)
        } else if value == 0x5B {
            Some(StructuredFieldID::EraseReset)
        } else if value == 0xD3 {
            Some(StructuredFieldID::DefineExtendedAttribute)
        } else if value == 0x7E {
            Some(StructuredFieldID::DefineNamedLogicalUnit)
        } else if value == 0x80 {
            Some(StructuredFieldID::DefinePendingOperations)
        } else if value == 0x81 {
            Some(StructuredFieldID::DisableCommandRecognition)
        } else if value == 0x82 {
            Some(StructuredFieldID::EnableCommandRecognition)
        } else if value == 0x83 {
            Some(StructuredFieldID::RequestMinimumTimestampInterval)
        } else if value == 0x84 {
            Some(StructuredFieldID::QueryCommand)
        } else if value == 0x85 {
            Some(StructuredFieldID::SetReplyMode)
        } else if value == 0x86 {
            Some(StructuredFieldID::DefineRollDirection)
        } else if value == 0x87 {
            Some(StructuredFieldID::SetMonitorMode)
        } else if value == 0x88 {
            Some(StructuredFieldID::CancelRecovery)
        } else {
            None
        }
    }

    /// The identifier with a given byte, if any.
    pub fn from_u8(value: u8) -> (r: Option<Self>)
        ensures
            r == Self::spec_from_byte(value),
    {
        match value {
            0xC1 => Some(StructuredFieldID::CreateChangeExtendedAttribute),
            0xCA => Some(StructuredFieldID::SetExtendedAttributeList),
            0xD2 => Some(StructuredFieldID::ReadText),
            0x5B => Some(StructuredFieldID::EraseReset),
            0xD3 => Some(StructuredFieldID::DefineExtendedAttribute),
            0x7E => Some(StructuredFieldID::DefineNamedLogicalUnit),
            0x80 => Some(StructuredFieldID::DefinePendingOperations),
            0x81 => Some(StructuredFieldID::DisableCommandRecognition),
            0x82 => Some(StructuredFieldID::EnableCommandRecognition),
            0x83 => Some(StructuredFieldID::RequestMinimumTimestampInterval),
            0x84 => Some(StructuredFieldID::QueryCommand),
            0x85 => Some(StructuredFieldID::SetReplyMode),
            0x86 => Some(StructuredFieldID::DefineRollDirection),
            0x87 => Some(StructuredFieldID::SetMonitorMode),
            0x88 => Some(StructuredFieldID::CancelRecovery),
            _ => None,
        }
    }
}

/// Decoding the byte of any structured field identifier gives it back.
pub proof fn lemma_structured_field_id_roundtrip(id: StructuredFieldID, value: u8)
    ensures
        StructuredFieldID::spec_from_byte(id.spec_byte()) == Some(id),
        StructuredFieldID::spec_from_byte(value) matches Some(d) ==> d.spec_byte() == value,
{
}

/// A 5250 packet: command, sequence number, flags and data.
#[derive(Debug)]
pub struct Packet {
    pub command: CommandCode,
    pub sequence_number: u8,
    pub data: Vec<u8>,
    pub flags: u8,
}

/// The wire form of a packet: command, sequence number, the data length as
/// a big-endian 16-bit number (its low 16 bits), flags, data.
pub open spec fn packet_bytes(command: CommandCode, sequence_number: u8, flags: u8, data: Seq<u8>) -> Seq<u8> {
    seq![
        command.spec_byte(),
        sequence_number,
        ((data.len() / 256) % 256) as u8,
        (data.len() % 256) as u8,
        flags,
    ] + data
}

/// The packet a byte sequence holds, as (command, sequence number, flags,
/// data): at least five bytes, a known command, a data length of at most
/// 65530 that the bytes cover; bytes after the data are ignored.
pub open spec fn parse_packet(bytes: Seq<u8>) -> Option<(CommandCode, u8, u8, Seq<u8>)> {
    if bytes.len() < 5 {
        None
    } else {
        let length = bytes[2] as int * 256 + bytes[3] as int;
        if 5 + length > bytes.len() || length > 65530 {
            None
        } else {
            match CommandCode::spec_from_byte(bytes[0]) {
                Some(command) => Some((command, bytes[1], bytes[4], bytes.subrange(5, 5 + length))),
                None => None,
            }
        }
    }
}

impl Packet {
    /// A packet with no flags.
    pub fn new(command: CommandCode, sequence_number: u8, data: Vec<u8>) -> (r: Self)
        ensures
            r.command == command,
            r.sequence_number == sequence_number,
            r.data@ == data@,
            r.flags == 0,
    {
        Packet { command, sequence_number, data, flags: 0 }
    }

    /// A packet with flags.
    pub fn new_with_flags(command: CommandCode, sequence_number: u8, data: Vec<u8>, flags: u8) -> (r: Self)
        ensures
            r.command == command,
            r.sequence_number == sequence_number,
            r.data@ == data@,
            r.flags == flags,
    {
        Packet { command, sequence_number, data, flags }
    }

    /// The packet's wire form (see `packet_bytes`).
    pub fn to_bytes(&self) -> (r: Vec<u8>)
        ensures
            r@ == packet_bytes(self.command, self.sequence_number, self.flags, self.data@),
    {
        let mut result: Vec<u8> = Vec::new();
        result.push(self.command.to_u8());
        result.push(self.sequence_number);
        let data_length = self.data.len();
        result.push(((data_length / 256) % 256) as u8);
        result.push((data_length % 256) as u8);
        result.push(self.flags);
        let ghost head = result@;
        let mut i: usize = 0;
        while i < self.data.len()
            invariant
                i <= self.data@.len(),
                result@ == head + self.data@.take(i as int),
            decreases self.data@.len() - i,
        {
            result.push(self.data[i]);
            i = i + 1;
            assert(result@ =~= head + self.data@.take(i as int));
        }
        assert(self.data@.take(self.data@.len() as int) =~= self.data@);
        result
    }

    /// The packet a byte sequence holds (see `parse_packet`).
    pub fn from_bytes(bytes: &[u8]) -> (r: Option<Self>)
        ensures
            match parse_packet(bytes@) {
                Some((command, sequence_number, flags, data)) => r matches Some(p) && p.command == command
                    && p.sequence_number == sequence_number && p.flags == flags && p.data@ == data,
                None => r is None,
            },
    {
        if bytes.len() < 5 {
            return None;
        }
        let command_byte = bytes[0];
        let sequence_number = bytes[1];
        let length = (bytes[2] as usize) * 256 + (bytes[3] as usize);
        if length > bytes.len() - 5 {
            return None;
        }
        if length > 65530 {
            return None;
        }
        let flags = bytes[4];
        let data = vstd::slice::slice_to_vec(vstd::slice::slice_subrange(bytes, 5, 5 + length));
        match CommandCode::from_u8(command_byte) {
            Some(command) => Some(Packet::new_with_flags(command, sequence_number, data, flags)),
            None => None,
        }
    }
}

/// Reading back the wire form of a packet gives the packet, for every
/// packet whose data is at most 65530 bytes.
pub proof fn lemma_packet_roundtrip(command: CommandCode, sequence_number: u8, flags: u8, data: Seq<u8>)
    requires
        data.len() <= 65530,
    ensures
        parse_packet(packet_bytes(command, sequence_number, flags, data)) == Some((command, sequence_number, flags, data)),
{
    let b = packet_bytes(command, sequence_number, flags, data);
    let n = data.len() as int;
    assert((n / 256) % 256 == n / 256);
    assert(((n / 256) % 256) as u8 as int * 256 + (n % 256) as u8 as int == n);
    crate::lib5250::codes::lemma_command_code_roundtrip(command, 0);
    assert(b.subrange(5, 5 + n) =~= data);
}

/// The device identification a processor starts with.
pub const DEFAULT_DEVICE_ID: &'static str = "IBM-5555-C01";

/// Answers 5250 read commands from the input the user has typed.
#[derive(Debug)]
pub struct ProtocolProcessor {
    sequence_number: u8,
    pub connected: bool,
    input_buffer: Vec<u8>,
    pending_responses: Vec<Packet>,
    device_id: String,
}

/// The next sequence number (wrapping after 255).
pub open spec fn next_sequence(n: u8) -> u8 {
    ((n as int + 1) % 256) as u8
}

impl ProtocolProcessor {
    /// Whether the session is connected.
    pub closed spec fn is_connected(&self) -> bool {
        self.connected
    }

    /// The last sequence number used.
    pub closed spec fn sequence(&self) -> u8 {
        self.sequence_number
    }

    /// The input waiting to be sent.
    pub closed spec fn pending_input(&self) -> Seq<u8> {
        self.input_buffer@
    }

    /// The number of replies waiting.
    pub closed spec fn pending_count(&self) -> nat {
        self.pending_responses@.len()
    }

    /// The device identification.
    pub closed spec fn device(&self) -> Seq<char> {
        self.device_id@
    }

    /// A disconnected processor with sequence number 0, no input and the
    /// default device identification.
    pub fn new() -> (r: Self)
        ensures
            r.sequence() == 0,
            !r.is_connected(),
            r.pending_input() == Seq::<u8>::empty(),
            r.pending_count() == 0,
            r.device() == DEFAULT_DEVICE_ID@,
    {
        ProtocolProcessor {
            sequence_number: 0,
            connected: false,
            input_buffer: Vec::new(),
            pending_responses: Vec::new(),
            device_id: crate::text::str_to_string(DEFAULT_DEVICE_ID),
        }
    }

    /// Answer a packet. Read Input Fields, Read MDT Fields and Read MDT
    /// Fields Alternate are answered with one packet of the same command,
    /// the next sequence number and all pending input, which is consumed;
    /// Read Immediate with an empty packet; every other command needs no
    /// answer.
    pub fn process_packet(&mut self, packet: &Packet) -> (r: Result<Vec<Packet>, String>)
        ensures
            r is Ok,
            final(self).is_connected() == old(self).is_connected(),
            final(self).device() == old(self).device(),
            final(self).pending_count() == old(self).pending_count(),
            match packet.command {
                CommandCode::ReadInputFields | CommandCode::ReadMdtFields | CommandCode::ReadMdtFieldsAlt => {
                    &&& final(self).sequence() == next_sequence(old(self).sequence())
                    &&& final(self).pending_input() == Seq::<u8>::empty()
                    &&& r matches Ok(v) && v@.len() == 1 && v@[0].command == packet.command
                        && v@[0].sequence_number == final(self).sequence() && v@[0].flags == 0
                        && v@[0].data@ == old(self).pending_input()
                },
                CommandCode::ReadImmediate => {
                    &&& final(self).sequence() == next_sequence(old(self).sequence())
                    &&& final(self).pending_input() == old(self).pending_input()
                    &&& r matches Ok(v) && v@.len() == 1 && v@[0].command == CommandCode::ReadImmediate
                        && v@[0].sequence_number == final(self).sequence() && v@[0].flags == 0
                        && v@[0].data@ == Seq::<u8>::empty()
                },
                _ => {
                    &&& final(self).sequence() == old(self).sequence()
                    &&& final(self).pending_input() == old(self).pending_input()
                    &&& r matches Ok(v) && v@.len() == 0
                },
            },
    {
        match packet.command {
            CommandCode::WriteToDisplay => Ok(Vec::new()),
            CommandCode::ReadInputFields => Ok(vec![self.create_read_buffer_response()]),
            CommandCode::ReadMdtFields => Ok(vec![self.create_read_modified_response()]),
            CommandCode::ReadMdtFieldsAlt => Ok(vec![self.create_read_modified_all_response()]),
            CommandCode::ReadImmediate => Ok(vec![self.create_read_immediate_response()]),
            CommandCode::WriteStructuredField => Ok(Vec::new()),
            CommandCode::SaveScreen => Ok(Vec::new()),
            CommandCode::RestoreScreen => Ok(Vec::new()),
            _ => Ok(Vec::new()),
        }
    }

    /// Take all pending input and advance the sequence number.
    fn take_input(&mut self) -> (r: Vec<u8>)
        ensures
            r@ == old(self).pending_input(),
            final(self).pending_input() == Seq::<u8>::empty(),
            final(self).sequence() == next_sequence(old(self).sequence()),
            final(self).is_connected() == old(self).is_connected(),
            final(self).device() == old(self).device(),
            final(self).pending_count() == old(self).pending_count(),
    {
        let mut data: Vec<u8> = Vec::new();
        std::mem::swap(&mut data, &mut self.input_buffer);
        self.sequence_number = self.sequence_number.wrapping_add(1);
        data
    }

    fn create_read_buffer_response(&mut self) -> (r: Packet)
        ensures
            r.command == CommandCode::ReadInputFields,
            r.sequence_number == final(self).sequence(),
            r.flags == 0,
            r.data@ == old(self).pending_input(),
            final(self).pending_input() == Seq::<u8>::empty(),
            final(self).sequence() == next_sequence(old(self).sequence()),
            final(self).is_connected() == old(self).is_connected(),
            final(self).device() == old(self).device(),
            final(self).pending_count() == old(self).pending_count(),
    {
        let response_data = self.take_input();
        Packet::new(CommandCode::ReadInputFields, self.sequence_number, response_data)
    }

    fn create_read_modified_response(&mut self) -> (r: Packet)
        ensures
            r.command == CommandCode::ReadMdtFields,
            r.sequence_number == final(self).sequence(),
            r.flags == 0,
            r.data@ == old(self).pending_input(),
            final(self).pending_input() == Seq::<u8>::empty(),
            final(self).sequence() == next_sequence(old(self).sequence()),
            final(self).is_connected() == old(self).is_connected(),
            final(self).device() == old(self).device(),
            final(self).pending_count() == old(self).pending_count(),
    {
        let response_data = self.take_input();
        Packet::new(CommandCode::ReadMdtFields, self.sequence_number, response_data)
    }

    fn create_read_modified_all_response(&mut self) -> (r: Packet)
        ensures
            r.command == CommandCode::ReadMdtFieldsAlt,
            r.sequence_number == final(self).sequence(),
            r.flags == 0,
            r.data@ == old(self).pending_input(),
            final(self).pending_input() == Seq::<u8>::empty(),
            final(self).sequence() == next_sequence(old(self).sequence()),
            final(self).is_connected() == old(self).is_connected(),
            final(self).device() == old(self).device(),
            final(self).pending_count() == old(self).pending_count(),
    {
        let response_data = self.take_input();
        Packet::new(CommandCode::ReadMdtFieldsAlt, self.sequence_number, response_data)
    }

    fn create_read_immediate_response(&mut self) -> (r: Packet)
        ensures
            r.command == CommandCode::ReadImmediate,
            r.sequence_number == final(self).sequence(),
            r.flags == 0,
            r.data@ == Seq::<u8>::empty(),
            final(self).pending_input() == old(self).pending_input(),
            final(self).sequence() == next_sequence(old(self).sequence()),
            final(self).is_connected() == old(self).is_connected(),
            final(self).device() == old(self).device(),
            final(self).pending_count() == old(self).pending_count(),
    {
        self.sequence_number = self.sequence_number.wrapping_add(1);
        Packet::new(CommandCode::ReadImmediate, self.sequence_number, Vec::new())
    }

    /// Set the device identification.
    pub fn set_device_id(&mut self, device_id: String)
        ensures
            final(self).device() == device_id@,
            final(self).sequence() == old(self).sequence(),
            final(self).is_connected() == old(self).is_connected(),
            final(self).pending_input() == old(self).pending_input(),
            final(self).pending_count() == old(self).pending_count(),
    {
        self.device_id = device_id;
    }

    /// The device identification.
    pub fn get_device_id(&self) -> (r: &str)
        ensures
            r@ == self.device(),
    {
        self.device_id.as_str()
    }

    /// A Write to Display packet carrying the text, each character cut to
    /// its low eight bits, with the next sequence number.
    pub fn create_write_to_display_packet(&mut self, text: &str) -> (r: Packet)
        ensures
            r.command == CommandCode::WriteToDisplay,
            r.sequence_number == final(self).sequence(),
            r.flags == 0,
            r.data@ == text@.map_values(|c: char| c as u8),
            final(self).sequence() == next_sequence(old(self).sequence()),
            final(self).pending_input() == old(self).pending_input(),
            final(self).is_connected() == old(self).is_connected(),
            final(self).device() == old(self).device(),
            final(self).pending_count() == old(self).pending_count(),
    {
        let mut data: Vec<u8> = Vec::new();
        let n = text.unicode_len();
        let mut i: usize = 0;
        while i < n
            invariant
                n == text@.len(),
                i <= n,
                data@ == text@.take(i as int).map_values(|c: char| c as u8),
            decreases n - i,
        {
            let ch = text.get_char(i);
            data.push(#[verifier::truncate] (ch as u8));
            i = i + 1;
            assert(data@ =~= text@.take(i as int).map_values(|c: char| c as u8));
        }
        assert(text@.take(n as int) =~= text@);
        self.sequence_number = self.sequence_number.wrapping_add(1);
        Packet::new(CommandCode::WriteToDisplay, self.sequence_number, data)
    }

    /// Queue typed input to send with the next read reply.
    pub fn add_input(&mut self, input: &[u8])
        ensures
            final(self).pending_input() == old(self).pending_input() + input@,
            final(self).sequence() == old(self).sequence(),
            final(self).is_connected() == old(self).is_connected(),
            final(self).device() == old(self).device(),
            final(self).pending_count() == old(self).pending_count(),
    {
        let ghost start = self.input_buffer@;
        let mut i: usize = 0;
        while i < input.len()
            invariant
                i <= input@.len(),
                self.input_buffer@ == start + input@.take(i as int),
                start == old(self).input_buffer@,
                self.sequence_number == old(self).sequence_number,
                self.connected == old(self).is_connected(),
                self.device_id == old(self).device_id,
                self.pending_responses == old(self).pending_responses,
            decreases input@.len() - i,
        {
            self.input_buffer.push(input[i]);
            i = i + 1;
            assert(self.input_buffer@ =~= start + input@.take(i as int));
        }
        assert(input@.take(input@.len() as int) =~= input@);
    }

    /// Mark the session connected, dropping pending input and replies.
    pub fn connect(&mut self)
        ensures
            final(self).is_connected(),
            final(self).pending_input() == Seq::<u8>::empty(),
            final(self).pending_count() == 0,
            final(self).sequence() == old(self).sequence(),
            final(self).device() == old(self).device(),
    {
        self.connected = true;
        self.input_buffer.clear();
        self.pending_responses.clear();
    }

    /// Mark the session disconnected, dropping pending input and replies.
    pub fn disconnect(&mut self)
        ensures
            !final(self).is_connected(),
            final(self).pending_input() == Seq::<u8>::empty(),
            final(self).pending_count() == 0,
            final(self).sequence() == old(self).sequence(),
            final(self).device() == old(self).device(),
    {
        self.connected = false;
        self.input_buffer.clear();
        self.pending_responses.clear();
    }
}

/// The cursor after one order of a Write to Display whose byte is at `c`:
/// Start of Field takes an attribute byte, Set Buffer Address and Move
/// Cursor two bytes, Roll one, Set Format Table a length and that many
/// bytes; every other byte stands alone.
pub open spec fn order_step(buf: Seq<u8>, c: int) -> Result<int, Seq<char>> {
    let order = buf[c];
    let p = c + 1;
    if order == 0x11 {
        if p >= buf.len() { Err("Incomplete field attribute order"@) } else { Ok(p + 1) }
    } else if order == 0x1A {
        if p + 1 >= buf.len() { Err("Incomplete set buffer address order"@) } else { Ok(p + 2) }
    } else if order == 0x29 {
        if p >= buf.len() { Err("Incomplete roll order"@) } else { Ok(p + 1) }
    } else if order == 0x1C {
        if p + 1 >= buf.len() { Err("Incomplete move cursor order"@) } else { Ok(p + 2) }
    } else if order == 0x2D {
        if p + 1 >= buf.len() {
            Err("Incomplete set format table order"@)
        } else if p + 1 + buf[p] > buf.len() {
            Err("Insufficient data for format table"@)
        } else {
            Ok(p + 1 + buf[p])
        }
    } else {
        Ok(p)
    }
}

/// The orders and data of a Write to Display from `c`, up to the end of
/// the data or a byte whose high nibble is 0xF (the next command).
pub open spec fn wtd_orders(buf: Seq<u8>, c: int) -> Result<int, Seq<char>>
    decreases buf.len() - c,
{
    if c < 0 || c >= buf.len() || buf[c] & 0xF0 == 0xF0 {
        Ok(c)
    } else {
        match order_step(buf, c) {
            Ok(n) => if c < n {
                wtd_orders(buf, n)
            } else {
                Ok(n)
            },
            Err(e) => Err(e),
        }
    }
}

/// The cursor after the command whose byte is at `c`.
pub open spec fn command_step(buf: Seq<u8>, c: int) -> Result<int, Seq<char>> {
    let p = c + 1;
    match CommandCode::spec_from_byte(buf[c]) {
        Some(CommandCode::WriteToDisplay) => if p >= buf.len() {
            Err("Incomplete WriteToDisplay command"@)
        } else {
            wtd_orders(buf, p + 1)
        },
        Some(CommandCode::ReadInputFields) => if p < buf.len() && buf[p] <= 2 {
            Ok(p + 1)
        } else {
            Ok(p)
        },
        Some(CommandCode::WriteStructuredField) => if p + 2 >= buf.len() {
            Err("Incomplete WriteStructuredField"@)
        } else {
            let length = buf[p] as int * 256 + buf[p + 1] as int;
            let data_length = if length >= 3 { length - 3 } else { 0 };
            if p + 3 + data_length > buf.len() {
                Err("Insufficient data for structured field"@)
            } else {
                Ok(p + 3 + data_length)
            }
        },
        Some(CommandCode::ReadMdtFields) | Some(CommandCode::ReadMdtFieldsAlt) => if p < buf.len() {
            Ok(p + 1)
        } else {
            Ok(p)
        },
        _ => Ok(p),
    }
}

/// Orders never move backwards and stay inside the data.
pub proof fn lemma_order_step(buf: Seq<u8>, c: int)
    requires
        0 <= c < buf.len(),
    ensures
        order_step(buf, c) matches Ok(n) ==> c < n <= buf.len(),
{
}

/// The orders of a Write to Display stay inside the data.
pub proof fn lemma_wtd_orders(buf: Seq<u8>, c: int)
    requires
        0 <= c <= buf.len(),
    ensures
        wtd_orders(buf, c) matches Ok(n) ==> c <= n <= buf.len(),
    decreases buf.len() - c,
{
    if c < buf.len() && buf[c] & 0xF0 != 0xF0 {
        lemma_order_step(buf, c);
        if let Ok(n) = order_step(buf, c) {
            lemma_wtd_orders(buf, n);
        }
    }
}

/// Commands always move forward and stay inside the data.
pub proof fn lemma_command_step(buf: Seq<u8>, c: int)
    requires
        0 <= c < buf.len(),
    ensures
        command_step(buf, c) matches Ok(n) ==> c < n <= buf.len(),
{
    if c + 2 <= buf.len() {
        lemma_wtd_orders(buf, c + 2);
    }
}

/// The outcome of parsing a data stream from `c`: commands one after the
/// other until the end, or the first error.
pub open spec fn stream_outcome(buf: Seq<u8>, c: int) -> Result<(), Seq<char>>
    decreases buf.len() - c,
{
    if c < 0 || c >= buf.len() {
        Ok(())
    } else {
        match command_step(buf, c) {
            Ok(n) => if c < n && n <= buf.len() {
                stream_outcome(buf, n)
            } else {
                Ok(())
            },
            Err(e) => Err(e),
        }
    }
}

/// Walks a 5250 data stream command by command, checking that every command
/// and order has the bytes it needs.
pub struct ProtocolParser {
    pub buffer: Vec<u8>,
    pub cursor: usize,
}

impl ProtocolParser {
    /// A parser at the start of a copy of the data.
    pub fn new(data: &[u8]) -> (r: Self)
        ensures
            r.buffer@ == data@,
            r.cursor == 0,
    {
        ProtocolParser { buffer: vstd::slice::slice_to_vec(data), cursor: 0 }
    }

    /// Parse to the end of the data: the outcome is `stream_outcome`, and on
    /// success the cursor stands at the end.
    pub fn parse(&mut self) -> (r: Result<(), String>)
        requires
            old(self).cursor <= old(self).buffer@.len(),
        ensures
            final(self).buffer == old(self).buffer,
            match stream_outcome(old(self).buffer@, old(self).cursor as int) {
                Ok(()) => r is Ok && final(self).cursor == final(self).buffer@.len(),
                Err(e) => r matches Err(m) && m@ == e,
            },
    {
        while self.cursor < self.buffer.len()
            invariant
                self.buffer == old(self).buffer,
                self.cursor <= self.buffer@.len(),
                stream_outcome(self.buffer@, self.cursor as int) == stream_outcome(old(self).buffer@, old(self).cursor as int),
            decreases self.buffer@.len() - self.cursor,
        {
            proof {
                lemma_command_step(self.buffer@, self.cursor as int);
            }
            let cmd = self.buffer[self.cursor];
            let res = match CommandCode::from_u8(cmd) {
                Some(CommandCode::WriteToDisplay) => self.parse_write_to_display(),
                Some(CommandCode::ReadInputFields) => self.parse_read_buffer(),
                Some(CommandCode::WriteStructuredField) => self.parse_write_structured_field(),
                Some(CommandCode::ReadMdtFields) => self.parse_save_screen(),
                Some(CommandCode::ReadMdtFieldsAlt) => self.parse_restore_screen(),
                _ => {
                    self.cursor = self.cursor + 1;
                    Ok(())
                },
            };
            if let Err(e) = res {
                return Err(e);
            }
        }
        Ok(())
    }

    /// Write to Display at the cursor: its control byte, then orders and
    /// data up to the next command.
    fn parse_write_to_display(&mut self) -> (r: Result<(), String>)
        requires
            old(self).cursor < old(self).buffer@.len(),
        ensures
            final(self).buffer == old(self).buffer,
            ({
                let p = old(self).cursor + 1;
                let o = if p >= old(self).buffer@.len() {
                    Err("Incomplete WriteToDisplay command"@)
                } else {
                    wtd_orders(old(self).buffer@, p + 1)
                };
                match o {
                    Ok(n) => r is Ok && final(self).cursor == n,
                    Err(e) => r matches Err(m) && m@ == e,
                }
            }),
    {
        let len = self.buffer.len();
        self.cursor = self.cursor + 1;
        if self.cursor >= self.buffer.len() {
            return Err(crate::text::str_to_string("Incomplete WriteToDisplay command"));
        }
        let _wcc = self.buffer[self.cursor];
        self.cursor = self.cursor + 1;
        let ghost start = self.cursor as int;
        while self.cursor < self.buffer.len()
            invariant
                self.buffer == old(self).buffer,
                self.cursor <= self.buffer@.len(),
                start == old(self).cursor + 2,
                wtd_orders(self.buffer@, self.cursor as int) == wtd_orders(self.buffer@, start),
            ensures
                self.buffer == old(self).buffer,
                self.cursor <= self.buffer@.len(),
                wtd_orders(self.buffer@, self.cursor as int) == wtd_orders(self.buffer@, start),
                wtd_orders(self.buffer@, self.cursor as int) == Ok::<int, Seq<char>>(self.cursor as int),
            decreases self.buffer@.len() - self.cursor,
        {
            let order = self.buffer[self.cursor];
            if (order & 0xF0) == 0xF0 {
                break;
            }
            proof {
                lemma_order_step(self.buffer@, self.cursor as int);
            }
            let res = self.parse_order(order);
            if let Err(e) = res {
                return Err(e);
            }
        }
        assert(wtd_orders(self.buffer@, self.cursor as int) == Ok::<int, Seq<char>>(self.cursor as int));
        Ok(())
    }

    /// One order at the cursor (see `order_step`).
    fn parse_order(&mut self, order: u8) -> (r: Result<(), String>)
        requires
            old(self).cursor < old(self).buffer@.len(),
            order == old(self).buffer@[old(self).cursor as int],
        ensures
            final(self).buffer == old(self).buffer,
            match order_step(old(self).buffer@, old(self).cursor as int) {
                Ok(n) => r is Ok && final(self).cursor == n,
                Err(e) => r matches Err(m) && m@ == e,
            },
    {
        let len = self.buffer.len();
        self.cursor = self.cursor + 1;
        if order == 0x11 {
            if self.cursor >= self.buffer.len() {
                return Err(crate::text::str_to_string("Incomplete field attribute order"));
            }
            let _attr = self.buffer[self.cursor];
            self.cursor = self.cursor + 1;
            Ok(())
        } else if order == 0x1A {
            if self.buffer.len() - self.cursor < 2 {
                return Err(crate::text::str_to_string("Incomplete set buffer address order"));
            }
            self.cursor = self.cursor + 2;
            Ok(())
        } else if order == 0x29 {
            if self.cursor >= self.buffer.len() {
                return Err(crate::text::str_to_string("Incomplete roll order"));
            }
            self.cursor = self.cursor + 1;
            Ok(())
        } else if order == 0x1C {
            if self.buffer.len() - self.cursor < 2 {
                return Err(crate::text::str_to_string("Incomplete move cursor order"));
            }
            self.cursor = self.cursor + 2;
            Ok(())
        } else if order == 0x2D {
            if self.buffer.len() - self.cursor < 2 {
                return Err(crate::text::str_to_string("Incomplete set format table order"));
            }
            let length = self.buffer[self.cursor] as usize;
            self.cursor = self.cursor + 1;
            if length > self.buffer.len() - self.cursor {
                return Err(crate::text::str_to_string("Insufficient data for format table"));
            }
            self.cursor = self.cursor + length;
            Ok(())
        } else {
            Ok(())
        }
    }

    /// Read Input Fields at the cursor, with its control byte when the next
    /// byte is one (0, 1 or 2).
    fn parse_read_buffer(&mut self) -> (r: Result<(), String>)
        requires
            old(self).cursor < old(self).buffer@.len(),
        ensures
            final(self).buffer == old(self).buffer,
            r is Ok,
            ({
                let p = old(self).cursor + 1;
                final(self).cursor == if p < old(self).buffer@.len() && old(self).buffer@[p] <= 2 { p + 1 } else { p }
            }),
    {
        let len = self.buffer.len();
        self.cursor = self.cursor + 1;
        if self.cursor < self.buffer.len() {
            let control_byte = self.buffer[self.cursor];
            if control_byte > 2 {
                return Ok(());
            }
            self.cursor = self.cursor + 1;
        }
        Ok(())
    }

    /// Write Structured Field at the cursor: a big-endian length, an
    /// identifier, and the length less three bytes of data.
    fn parse_write_structured_field(&mut self) -> (r: Result<(), String>)
        requires
            old(self).cursor < old(self).buffer@.len(),
            old(self).buffer@[old(self).cursor as int] == crate::lib5250::codes::CMD_WRITE_STRUCTURED_FIELD,
        ensures
            final(self).buffer == old(self).buffer,
            match command_step(old(self).buffer@, old(self).cursor as int) {
                Ok(n) => r is Ok && final(self).cursor == n,
                Err(e) => r matches Err(m) && m@ == e,
            },
    {
        let len = self.buffer.len();
        self.cursor = self.cursor + 1;
        if self.buffer.len() - self.cursor <= 2 {
            return Err(crate::text::str_to_string("Incomplete WriteStructuredField"));
        }
        let length = (self.buffer[self.cursor] as usize) * 256 + (self.buffer[self.cursor + 1] as usize);
        self.cursor = self.cursor + 2;
        if self.cursor >= self.buffer.len() {
            return Err(crate::text::str_to_string("Missing structured field ID"));
        }
        let _sf_id = self.buffer[self.cursor];
        self.cursor = self.cursor + 1;
        let data_length = if length >= 3 { length - 3 } else { 0 };
        if data_length > self.buffer.len() - self.cursor {
            return Err(crate::text::str_to_string("Insufficient data for structured field"));
        }
        self.cursor = self.cursor + data_length;
        Ok(())
    }

    /// Save Screen at the cursor, with its option byte when there is one.
    fn parse_save_screen(&mut self) -> (r: Result<(), String>)
        requires
            old(self).cursor < old(self).buffer@.len(),
        ensures
            final(self).buffer == old(self).buffer,
            r is Ok,
            final(self).cursor == if old(self).cursor + 1 < old(self).buffer@.len() { old(self).cursor + 2 } else { old(self).cursor + 1 },
    {
        let len = self.buffer.len();
        self.cursor = self.cursor + 1;
        if self.cursor < self.buffer.len() {
            let _save_options = self.buffer[self.cursor];
            self.cursor = self.cursor + 1;
        }
        Ok(())
    }

    /// Restore Screen at the cursor, with its option byte when there is one.
    fn parse_restore_screen(&mut self) -> (r: Result<(), String>)
        requires
            old(self).cursor < old(self).buffer@.len(),
        ensures
            final(self).buffer == old(self).buffer,
            r is Ok,
            final(self).cursor == if old(self).cursor + 1 < old(self).buffer@.len() { old(self).cursor + 2 } else { old(self).cursor + 1 },
    {
        let len = self.buffer.len();
        self.cursor = self.cursor + 1;
        if self.cursor < self.buffer.len() {
            let _restore_options = self.buffer[self.cursor];
            self.cursor = self.cursor + 1;
        }
        Ok(())
    }
}

/// Kinds of input field a protocol state can create.
#[derive(Debug, Clone, Copy, PartialEq, Eq, Structural)]
pub enum FieldType {
    Input,
    Output,
    Protected,
    Numeric,
    Hidden,
}

/// A call made on a protocol state, as its log records it.
pub ghost enum StateCall {
    /// `screen()`: the screen was handed out.
    Screen,
    /// `set_cursor(row, col)`.
    SetCursor(usize, usize),
    /// `determine_field_type(attribute)` and the type it answered.
    FieldTypeFor(u8, FieldType),
    /// `add_field(row, col, length, field_type, attribute)`.
    AddField(usize, usize, usize, FieldType, u8),
    /// `detect_fields()`.
    DetectFields,
}

/// What a data stream parser drives: the cursor, fields and the screen of
/// whatever keeps the terminal state. Each call is recorded in the state's
/// log of calls (`calls`).
pub trait ProtocolState {
    /// The calls made on the state so far, oldest first.
    spec fn calls(&self) -> Seq<StateCall>;

    /// The state's screen.
    spec fn screen_view(&self) -> TerminalScreen;

    /// Move the cursor (0-based).
    fn set_cursor(&mut self, row: usize, col: usize)
        ensures
            final(self).calls() == old(self).calls().push(StateCall::SetCursor(row, col)),
    ;

    /// Record a field.
    fn add_field(&mut self, row: usize, col: usize, length: usize, field_type: FieldType, attribute: u8)
        ensures
            final(self).calls() == old(self).calls().push(StateCall::AddField(row, col, length, field_type, attribute)),
    ;

    /// The field type an attribute byte selects.
    fn determine_field_type(&mut self, attribute: u8) -> (r: FieldType)
        ensures
            final(self).calls() == old(self).calls().push(StateCall::FieldTypeFor(attribute, r)),
    ;

    /// Look for fields on the screen.
    fn detect_fields(&mut self)
        ensures
            final(self).calls() == old(self).calls().push(StateCall::DetectFields),
    ;

    /// The screen: the state's own, so that what is done to it is done to
    /// the state's screen.
    fn screen(&mut self) -> (r: &mut TerminalScreen)
        ensures
            *r == old(self).screen_view(),
            final(self).screen_view() == *final(r),
            final(self).calls() == old(self).calls().push(StateCall::Screen),
    ;
}

/// A call as a `StateRecorder` keeps it.
#[derive(Debug, Clone, Copy, PartialEq, Eq, Structural)]
pub enum RecordedCall {
    Screen,
    SetCursor(usize, usize),
    FieldTypeFor(u8),
    AddField(usize, usize, usize, u8),
    DetectFields,
}

/// A protocol state that keeps its screen and records every call made on
/// it, answering each field type question with one configured type.
pub struct StateRecorder {
    pub screen: TerminalScreen,
    pub recorded: Vec<RecordedCall>,
    pub answer: FieldType,
    pub log: Ghost<Seq<StateCall>>,
}

impl StateRecorder {
    /// A recorder with a blank 80 x 24 screen and no calls yet.
    pub fn new(answer: FieldType) -> (r: Self)
        ensures
            r.calls() == Seq::<StateCall>::empty(),
            r.recorded@ == Seq::<RecordedCall>::empty(),
            r.answer == answer,
    {
        StateRecorder { screen: TerminalScreen::new(), recorded: Vec::new(), answer, log: Ghost(Seq::empty()) }
    }
}

impl ProtocolState for StateRecorder {
    closed spec fn calls(&self) -> Seq<StateCall> {
        self.log@
    }

    fn set_cursor(&mut self, row: usize, col: usize) {
        self.recorded.push(RecordedCall::SetCursor(row, col));
        proof {
            self.log@ = self.log@.push(StateCall::SetCursor(row, col));
        }
    }

    fn add_field(&mut self, row: usize, col: usize, length: usize, field_type: FieldType, attribute: u8) {
        self.recorded.push(RecordedCall::AddField(row, col, length, attribute));
        proof {
            self.log@ = self.log@.push(StateCall::AddField(row, col, length, field_type, attribute));
        }
    }

    fn determine_field_type(&mut self, attribute: u8) -> (r: FieldType) {
        self.recorded.push(RecordedCall::FieldTypeFor(attribute));
        proof {
            self.log@ = self.log@.push(StateCall::FieldTypeFor(attribute, self.answer));
        }
        self.answer
    }

    fn detect_fields(&mut self) {
        self.recorded.push(RecordedCall::DetectFields);
        proof {
            self.log@ = self.log@.push(StateCall::DetectFields);
        }
    }

    closed spec fn screen_view(&self) -> TerminalScreen {
        self.screen
    }

    fn screen(&mut self) -> (r: &mut TerminalScreen) {
        self.recorded.push(RecordedCall::Screen);
        proof {
            self.log@ = self.log@.push(StateCall::Screen);
        }
        &mut self.screen
    }
}

/// The calls a state-driven parse makes, as shapes: the screen taken (the
/// parser clears it), a cursor move, a field type asked for an attribute, a one-position field
/// at (0, 0) with the attribute (of the type just answered), a field
/// detection.
pub ghost enum CallShape {
    TakeScreen,
    SetCursor(usize, usize),
    FieldTypeFor(u8),
    AddField(u8),
    DetectFields,
}

/// Whether the call at `i` of a log has a shape (a field added carries the
/// type answered by the call just before it).
pub open spec fn call_fits(log: Seq<StateCall>, i: int, shape: CallShape) -> bool {
    match shape {
        CallShape::TakeScreen => log[i] == StateCall::Screen,
        CallShape::SetCursor(row, col) => log[i] == StateCall::SetCursor(row, col),
        CallShape::FieldTypeFor(a) => log[i] matches StateCall::FieldTypeFor(x, _) && x == a,
        CallShape::AddField(a) => i > 0 && (log[i - 1] matches StateCall::FieldTypeFor(_, t) && log[i] == StateCall::AddField(0, 0, 1, t, a)),
        CallShape::DetectFields => log[i] == StateCall::DetectFields,
    }
}

/// The log `after` is `before` followed by calls of the given shapes.
pub open spec fn calls_made(before: Seq<StateCall>, after: Seq<StateCall>, shapes: Seq<CallShape>) -> bool {
    &&& after.len() == before.len() + shapes.len()
    &&& after.take(before.len() as int) == before
    &&& forall|k: int| 0 <= k < shapes.len() ==> call_fits(after, before.len() + k, #[trigger] shapes[k])
}

/// A row or column of a Set Buffer Address, 1-based on the wire, made
/// 0-based (0 stays 0).
pub open spec fn zero_based(b: u8) -> usize {
    if b > 0 { (b - 1) as usize } else { 0 }
}

/// The calls made by the orders of a Write to Display from `c` (see
/// `state_wtd_orders`): a field type and a field for each Start of Field,
/// a cursor move for each Set Buffer Address, up to the end or an error.
pub open spec fn state_wtd_calls(buf: Seq<u8>, c: int) -> Seq<CallShape>
    decreases buf.len() - c,
{
    if c < 0 || c >= buf.len() || buf[c] & 0xF0 == 0xF0 {
        Seq::empty()
    } else {
        let b = buf[c];
        let p = c + 1;
        if b == 0x11 {
            if p >= buf.len() {
                Seq::empty()
            } else {
                seq![CallShape::FieldTypeFor(buf[p]), CallShape::AddField(buf[p])] + state_wtd_calls(buf, p + 1)
            }
        } else if b == 0x1A {
            if p + 1 >= buf.len() {
                Seq::empty()
            } else {
                seq![CallShape::SetCursor(zero_based(buf[p]), zero_based(buf[p + 1]))] + state_wtd_calls(buf, p + 2)
            }
        } else {
            state_wtd_calls(buf, p)
        }
    }
}

/// The calls made by a Write to Display whose control byte is at `p`: the
/// screen cleared and the cursor homed when the control byte has the low
/// three bits set, the calls of its orders, and a field detection when the
/// orders end well.
pub open spec fn wtd_command_calls(buf: Seq<u8>, p: int) -> Seq<CallShape> {
    if p >= buf.len() {
        Seq::empty()
    } else {
        wtd_head_calls(buf[p]) + state_wtd_calls(buf, p + 1) + if state_wtd_orders(buf, p + 1) is Ok {
            seq![CallShape::DetectFields]
        } else {
            Seq::empty()
        }
    }
}

/// The calls a Write to Display's control byte makes.
pub open spec fn wtd_head_calls(wcc: u8) -> Seq<CallShape> {
    if wcc & 0x07 == 0x07 { seq![CallShape::TakeScreen, CallShape::SetCursor(0, 0)] } else { Seq::empty() }
}

/// A log that grows by a call of the next shape still fits.
pub proof fn lemma_calls_push(before: Seq<StateCall>, after: Seq<StateCall>, shapes: Seq<CallShape>, x: StateCall, shape: CallShape)
    requires
        calls_made(before, after, shapes),
        call_fits(after.push(x), after.len() as int, shape),
    ensures
        calls_made(before, after.push(x), shapes.push(shape)),
{
    let a2 = after.push(x);
    assert(a2.take(before.len() as int) =~= after.take(before.len() as int));
    assert forall|k: int| 0 <= k < shapes.push(shape).len() implies call_fits(a2, before.len() + k, #[trigger] shapes.push(shape)[k]) by {
        if k < shapes.len() {
            let i = before.len() + k;
            assert(a2[i] == after[i]);
            if i > 0 {
                assert(a2[i - 1] == after[i - 1]);
            }
            assert(call_fits(after, i, shapes[k]));
        }
    }
}

/// Logs that fit one after the other fit together.
pub proof fn lemma_calls_append(
    before: Seq<StateCall>,
    mid: Seq<StateCall>,
    after: Seq<StateCall>,
    first: Seq<CallShape>,
    second: Seq<CallShape>,
)
    requires
        calls_made(before, mid, first),
        calls_made(mid, after, second),
    ensures
        calls_made(before, after, first + second),
{
    assert(after.take(before.len() as int) =~= mid.take(before.len() as int)) by {
        assert forall|i: int| 0 <= i < before.len() implies after.take(before.len() as int)[i] == mid.take(before.len() as int)[i] by {
            assert(after.take(mid.len() as int)[i] == mid[i]);
        }
    }
    assert forall|k: int| 0 <= k < (first + second).len() implies call_fits(after, before.len() + k, #[trigger] (first + second)[k]) by {
        if k < first.len() {
            let i = before.len() + k;
            assert(call_fits(mid, i, first[k]));
            assert(after[i] == mid[i]) by {
                assert(after.take(mid.len() as int)[i] == mid[i]);
            }
            if i > 0 {
                assert(after[i - 1] == mid[i - 1]) by {
                    assert(after.take(mid.len() as int)[i - 1] == mid[i - 1]);
                }
            }
        } else {
            assert(call_fits(after, mid.len() + (k - first.len()), second[k - first.len()]));
        }
    }
}

/// The calls made by the command whose byte is at `c`: a Write to Display
/// clears the screen and homes the cursor when its control byte has the
/// low three bits set, makes the calls of its orders and, when they end
/// well, detects fields; a Write Structured Field that is whole clears the
/// screen and homes the cursor for Erase/Reset (0x0E) and detects fields
/// for Query (0x81); other commands make no call.
pub open spec fn state_command_calls(buf: Seq<u8>, c: int) -> Seq<CallShape> {
    let p = c + 1;
    match CommandCode::spec_from_byte(buf[c]) {
        Some(CommandCode::WriteToDisplay) => wtd_command_calls(buf, p),
        Some(CommandCode::WriteStructuredField) => match state_command_step(buf, c) {
            Ok(_) => if buf[p + 2] == 0x0E {
                seq![CallShape::TakeScreen, CallShape::SetCursor(0, 0)]
            } else if buf[p + 2] == 0x81 {
                seq![CallShape::DetectFields]
            } else {
                Seq::empty()
            },
            Err(_) => Seq::empty(),
        },
        _ => Seq::empty(),
    }
}

/// The calls of a state-driven parse from `c`, command after command, up
/// to the end or the first error.
pub open spec fn state_calls(buf: Seq<u8>, c: int) -> Seq<CallShape>
    decreases buf.len() - c,
{
    if c < 0 || c >= buf.len() {
        Seq::empty()
    } else {
        state_command_calls(buf, c) + match state_command_step(buf, c) {
            Ok(n) => if c < n && n <= buf.len() { state_calls(buf, n) } else { Seq::empty() },
            Err(_) => Seq::empty(),
        }
    }
}

/// The cursor after the orders of a Write to Display from `c`, for the
/// state-driven parser: Start of Field takes an attribute byte, Set Buffer
/// Address a row and a column; everything else stands alone; a byte whose
/// high nibble is 0xF ends the command.
pub open spec fn state_wtd_orders(buf: Seq<u8>, c: int) -> Result<int, Seq<char>>
    decreases buf.len() - c,
{
    if c < 0 || c >= buf.len() || buf[c] & 0xF0 == 0xF0 {
        Ok(c)
    } else {
        let b = buf[c];
        let p = c + 1;
        if b == 0x11 {
            if p >= buf.len() { Err("Incomplete field attribute"@) } else { state_wtd_orders(buf, p + 1) }
        } else if b == 0x1A {
            if p + 1 >= buf.len() { Err("Incomplete cursor address"@) } else { state_wtd_orders(buf, p + 2) }
        } else {
            state_wtd_orders(buf, p)
        }
    }
}

/// The cursor after the command whose byte is at `c`, for the state-driven
/// parser.
pub open spec fn state_command_step(buf: Seq<u8>, c: int) -> Result<int, Seq<char>> {
    let p = c + 1;
    match CommandCode::spec_from_byte(buf[c]) {
        None => Err("Invalid command code: 0x"@ + crate::text::hex_byte_seq(buf[c])),
        Some(CommandCode::WriteToDisplay) => if p >= buf.len() {
            Err("Incomplete WriteToDisplay command"@)
        } else {
            state_wtd_orders(buf, p + 1)
        },
        Some(CommandCode::WriteStructuredField) => if p + 2 >= buf.len() {
            Err("Incomplete WriteStructuredField"@)
        } else {
            let length = buf[p] as int * 256 + buf[p + 1] as int;
            if p + 3 + length > buf.len() {
                Err("Insufficient data for structured field"@)
            } else {
                Ok(p + 3 + length)
            }
        },
        Some(_) => Ok(p),
    }
}

/// The outcome of the state-driven parse from `c`.
pub open spec fn state_outcome(buf: Seq<u8>, c: int) -> Result<(), Seq<char>>
    decreases buf.len() - c,
{
    if c < 0 || c >= buf.len() {
        Ok(())
    } else {
        match state_command_step(buf, c) {
            Ok(n) => if c < n && n <= buf.len() {
                state_outcome(buf, n)
            } else {
                Ok(())
            },
            Err(e) => Err(e),
        }
    }
}

/// The orders of a Write to Display stay inside the data.
pub proof fn lemma_state_wtd_orders(buf: Seq<u8>, c: int)
    requires
        0 <= c <= buf.len(),
    ensures
        state_wtd_orders(buf, c) matches Ok(n) ==> c <= n <= buf.len(),
    decreases buf.len() - c,
{
    if c < buf.len() && buf[c] & 0xF0 != 0xF0 {
        let b = buf[c];
        if b == 0x11 {
            if c + 1 < buf.len() {
                lemma_state_wtd_orders(buf, c + 2);
            }
        } else if b == 0x1A {
            if c + 2 < buf.len() {
                lemma_state_wtd_orders(buf, c + 3);
            }
        } else {
            lemma_state_wtd_orders(buf, c + 1);
        }
    }
}

/// Parse a 5250 data stream, driving a protocol state; an empty stream is
/// an error.
pub fn parse_5250_stream<T: ProtocolState>(data: &[u8], state: &mut T) -> (r: Result<(), String>)
    ensures
        data@.len() == 0 ==> (r matches Err(m) && m@ == "Empty data stream"@),
        data@.len() > 0 ==> match state_outcome(data@, 0) {
            Ok(()) => r is Ok,
            Err(e) => r matches Err(m) && m@ == e,
        },
        data@.len() == 0 ==> final(state).calls() == old(state).calls(),
        data@.len() > 0 ==> calls_made(old(state).calls(), final(state).calls(), state_calls(data@, 0)),
{
    if data.len() == 0 {
        return Err(crate::text::str_to_string("Empty data stream"));
    }
    let mut parser = ProtocolParser::new(data);
    parser.parse_with_state_trait(state)
}

impl ProtocolParser {
    /// Parse to the end of the data, driving a protocol state: Write to
    /// Display clears the screen when its control byte has the low three
    /// bits set, adds a field for each Start of Field, moves the cursor for
    /// each Set Buffer Address, and finally detects fields; an Erase/Reset
    /// structured field clears the screen; a Query structured field detects
    /// fields. The outcome is `state_outcome`.
    pub fn parse_with_state_trait<T: ProtocolState>(&mut self, state: &mut T) -> (r: Result<(), String>)
        requires
            old(self).cursor <= old(self).buffer@.len(),
        ensures
            final(self).buffer == old(self).buffer,
            match state_outcome(old(self).buffer@, old(self).cursor as int) {
                Ok(()) => r is Ok,
                Err(e) => r matches Err(m) && m@ == e,
            },
            calls_made(old(state).calls(), final(state).calls(), state_calls(old(self).buffer@, old(self).cursor as int)),
            r is Ok ==> final(self).cursor == final(self).buffer@.len(),
    {
        let ghost log0 = state.calls();
        let ghost mut done: Seq<CallShape> = Seq::empty();
        proof {
            assert(state.calls().take(log0.len() as int) =~= log0);
            assert(done + state_calls(self.buffer@, self.cursor as int) =~= state_calls(self.buffer@, self.cursor as int));
        }
        while self.cursor < self.buffer.len()
            invariant
                self.buffer == old(self).buffer,
                self.cursor <= self.buffer@.len(),
                state_outcome(self.buffer@, self.cursor as int) == state_outcome(old(self).buffer@, old(self).cursor as int),
                log0 == old(state).calls(),
                calls_made(log0, state.calls(), done),
                done + state_calls(self.buffer@, self.cursor as int) == state_calls(old(self).buffer@, old(self).cursor as int),
            decreases self.buffer@.len() - self.cursor,
        {
            let ghost c0 = self.cursor as int;
            let ghost l1 = state.calls();
            let cmd = self.buffer[self.cursor];
            self.cursor = self.cursor + 1;
            proof {
                assert(state.calls().take(l1.len() as int) =~= l1);
            }
            let res = match CommandCode::from_u8(cmd) {
                Some(CommandCode::WriteToDisplay) => {
                    let r = self.parse_write_to_display_with_state_trait(state);
                    assert(wtd_command_calls(self.buffer@, c0 + 1) == state_command_calls(self.buffer@, c0));
                    r
                },
                Some(CommandCode::WriteStructuredField) => self.parse_write_structured_field_with_state_trait(state),
                Some(_) => {
                    assert(state_command_calls(self.buffer@, c0) =~= Seq::<CallShape>::empty());
                    Ok(())
                },
                None => {
                    assert(state_command_calls(self.buffer@, c0) =~= Seq::<CallShape>::empty());
                    let msg = crate::text::string_concat(
                        crate::text::str_to_string("Invalid command code: 0x"),
                        crate::text::hex_byte_string(cmd).as_str(),
                    );
                    Err(msg)
                },
            };
            proof {
                lemma_calls_append(log0, l1, state.calls(), done, state_command_calls(self.buffer@, c0));
            }
            if let Err(e) = res {
                proof {
                    assert(done + state_command_calls(self.buffer@, c0) =~= state_calls(old(self).buffer@, old(self).cursor as int));
                }
                return Err(e);
            }
            proof {
                if c0 + 2 <= self.buffer@.len() {
                    lemma_state_wtd_orders(self.buffer@, c0 + 2);
                }
                assert(done + state_command_calls(self.buffer@, c0) + state_calls(self.buffer@, self.cursor as int)
                    =~= done + state_calls(self.buffer@, c0));
                done = done + state_command_calls(self.buffer@, c0);
            }
        }
        proof {
            assert(done =~= done + state_calls(self.buffer@, self.cursor as int));
        }
        Ok(())
    }

    /// Write to Display with the command byte already read.
    fn parse_write_to_display_with_state_trait<T: ProtocolState>(&mut self, state: &mut T) -> (r: Result<(), String>)
        requires
            0 < old(self).cursor <= old(self).buffer@.len(),
        ensures
            final(self).buffer == old(self).buffer,
            ({
                let p = old(self).cursor as int;
                let o = if p >= old(self).buffer@.len() {
                    Err("Incomplete WriteToDisplay command"@)
                } else {
                    state_wtd_orders(old(self).buffer@, p + 1)
                };
                match o {
                    Ok(n) => r is Ok && final(self).cursor == n,
                    Err(e) => r matches Err(m) && m@ == e,
                }
            }),
            calls_made(old(state).calls(), final(state).calls(), wtd_command_calls(old(self).buffer@, old(self).cursor as int)),
    {
        let ghost log0 = state.calls();
        let len = self.buffer.len();
        if self.cursor >= len {
            assert(state.calls().take(log0.len() as int) =~= log0);
            return Err(crate::text::str_to_string("Incomplete WriteToDisplay command"));
        }
        let wcc = self.buffer[self.cursor];
        self.cursor = self.cursor + 1;
        proof {
            assert(state.calls().take(log0.len() as int) =~= log0);
            assert(calls_made(log0, state.calls(), Seq::<CallShape>::empty()));
        }
        if wcc & 0x07 == 0x07 {
            let ghost l1 = state.calls();
            state.screen().clear();
            proof {
                lemma_calls_push(log0, l1, Seq::<CallShape>::empty(), StateCall::Screen, CallShape::TakeScreen);
            }
            let ghost l2 = state.calls();
            state.set_cursor(0, 0);
            proof {
                lemma_calls_push(log0, l2, seq![CallShape::TakeScreen], StateCall::SetCursor(0, 0), CallShape::SetCursor(0, 0));
                assert(seq![CallShape::TakeScreen].push(CallShape::SetCursor(0, 0)) =~= wtd_head_calls(wcc));
            }
        } else {
            assert(Seq::<CallShape>::empty() =~= wtd_head_calls(wcc));
        }
        let ghost start = self.cursor as int;
        let ghost head = wtd_head_calls(wcc);
        let ghost mut done: Seq<CallShape> = head;
        while self.cursor < len
            invariant
                self.buffer == old(self).buffer,
                len == self.buffer@.len(),
                self.cursor <= len,
                start == old(self).cursor + 1,
                old(self).cursor < len,
                head == wtd_head_calls(self.buffer@[old(self).cursor as int]),
                log0 == old(state).calls(),
                state_wtd_orders(self.buffer@, self.cursor as int) == state_wtd_orders(self.buffer@, start),
                calls_made(log0, state.calls(), done),
                done + state_wtd_calls(self.buffer@, self.cursor as int) == head + state_wtd_calls(self.buffer@, start),
            ensures
                self.buffer == old(self).buffer,
                self.cursor <= len,
                state_wtd_orders(self.buffer@, self.cursor as int) == state_wtd_orders(self.buffer@, start),
                state_wtd_orders(self.buffer@, self.cursor as int) == Ok::<int, Seq<char>>(self.cursor as int),
                calls_made(log0, state.calls(), done),
                done == head + state_wtd_calls(self.buffer@, start),
            decreases len - self.cursor,
        {
            let ghost c = self.cursor as int;
            let byte = self.buffer[self.cursor];
            if (byte & 0xF0) == 0xF0 {
                assert(done =~= done + state_wtd_calls(self.buffer@, c));
                break;
            }
            self.cursor = self.cursor + 1;
            if byte == 0x11 {
                if self.cursor >= len {
                    assert(done =~= done + state_wtd_calls(self.buffer@, c));
                    assert(state_wtd_orders(self.buffer@, c) is Err);
                    assert(done =~= wtd_command_calls(old(self).buffer@, old(self).cursor as int));
                    return Err(crate::text::str_to_string("Incomplete field attribute"));
                }
                let attr = self.buffer[self.cursor];
                self.cursor = self.cursor + 1;
                let ghost l1 = state.calls();
                let field_type = state.determine_field_type(attr);
                proof {
                    lemma_calls_push(log0, l1, done, StateCall::FieldTypeFor(attr, field_type), CallShape::FieldTypeFor(attr));
                }
                let ghost l2 = state.calls();
                state.add_field(0, 0, 1, field_type, attr);
                proof {
                    lemma_calls_push(log0, l2, done.push(CallShape::FieldTypeFor(attr)), StateCall::AddField(0, 0, 1, field_type, attr), CallShape::AddField(attr));
                    assert(state_wtd_calls(self.buffer@, c) =~= seq![CallShape::FieldTypeFor(attr), CallShape::AddField(attr)] + state_wtd_calls(self.buffer@, c + 2));
                    assert(done.push(CallShape::FieldTypeFor(attr)).push(CallShape::AddField(attr)) + state_wtd_calls(self.buffer@, c + 2)
                        =~= done + state_wtd_calls(self.buffer@, c));
                    done = done.push(CallShape::FieldTypeFor(attr)).push(CallShape::AddField(attr));
                }
            } else if byte == 0x1A {
                if len - self.cursor < 2 {
                    assert(done =~= done + state_wtd_calls(self.buffer@, c));
                    assert(state_wtd_orders(self.buffer@, c) is Err);
                    assert(done =~= wtd_command_calls(old(self).buffer@, old(self).cursor as int));
                    return Err(crate::text::str_to_string("Incomplete cursor address"));
                }
                let row = self.buffer[self.cursor] as usize;
                let col = self.buffer[self.cursor + 1] as usize;
                let r0 = if row > 0 { row - 1 } else { 0 };
                let c0 = if col > 0 { col - 1 } else { 0 };
                let ghost l1 = state.calls();
                state.set_cursor(r0, c0);
                proof {
                    assert(r0 == zero_based(self.buffer@[c + 1]));
                    assert(c0 == zero_based(self.buffer@[c + 2]));
                    lemma_calls_push(log0, l1, done, StateCall::SetCursor(r0, c0), CallShape::SetCursor(r0, c0));
                    assert(state_wtd_calls(self.buffer@, c) =~= seq![CallShape::SetCursor(r0, c0)] + state_wtd_calls(self.buffer@, c + 3));
                    assert(done.push(CallShape::SetCursor(r0, c0)) + state_wtd_calls(self.buffer@, c + 3) =~= done + state_wtd_calls(self.buffer@, c));
                    done = done.push(CallShape::SetCursor(r0, c0));
                }
                self.cursor = self.cursor + 2;
            } else {
                let _ch = crate::ebcdic::ebcdic_to_ascii(byte);
            }
        }
        proof {
            if self.cursor >= len {
                assert(done =~= done + state_wtd_calls(self.buffer@, self.cursor as int));
            }
        }
        let ghost l1 = state.calls();
        state.detect_fields();
        proof {
            lemma_calls_push(log0, l1, done, StateCall::DetectFields, CallShape::DetectFields);
            assert(done.push(CallShape::DetectFields) =~= wtd_command_calls(old(self).buffer@, old(self).cursor as int));
        }
        Ok(())
    }

    /// Write Structured Field with the command byte already read: a
    /// big-endian length, an identifier, and `length` bytes of data.
    fn parse_write_structured_field_with_state_trait<T: ProtocolState>(&mut self, state: &mut T) -> (r: Result<(), String>)
        requires
            0 < old(self).cursor <= old(self).buffer@.len(),
            old(self).buffer@[old(self).cursor - 1] == crate::lib5250::codes::CMD_WRITE_STRUCTURED_FIELD,
        ensures
            final(self).buffer == old(self).buffer,
            match state_command_step(old(self).buffer@, old(self).cursor - 1) {
                Ok(n) => r is Ok && final(self).cursor == n,
                Err(e) => r matches Err(m) && m@ == e,
            },
            calls_made(old(state).calls(), final(state).calls(), state_command_calls(old(self).buffer@, old(self).cursor - 1)),
    {
        let ghost log0 = state.calls();
        proof {
            assert(state.calls().take(log0.len() as int) =~= log0);
            assert(calls_made(log0, state.calls(), Seq::<CallShape>::empty()));
        }
        let len = self.buffer.len();
        if len - self.cursor <= 2 {
            assert(state_command_calls(old(self).buffer@, old(self).cursor - 1) =~= Seq::<CallShape>::empty());
            return Err(crate::text::str_to_string("Incomplete WriteStructuredField"));
        }
        let length = (self.buffer[self.cursor] as usize) * 256 + (self.buffer[self.cursor + 1] as usize);
        let sf_id = self.buffer[self.cursor + 2];
        self.cursor = self.cursor + 3;
        if length > len - self.cursor {
            assert(state_command_calls(old(self).buffer@, old(self).cursor - 1) =~= Seq::<CallShape>::empty());
            return Err(crate::text::str_to_string("Insufficient data for structured field"));
        }
        if sf_id == 0x0E {
            let ghost l1 = state.calls();
            state.screen().clear();
            proof {
                lemma_calls_push(log0, l1, Seq::<CallShape>::empty(), StateCall::Screen, CallShape::TakeScreen);
            }
            let ghost l2 = state.calls();
            state.set_cursor(0, 0);
            proof {
                lemma_calls_push(log0, l2, seq![CallShape::TakeScreen], StateCall::SetCursor(0, 0), CallShape::SetCursor(0, 0));
                assert(seq![CallShape::TakeScreen].push(CallShape::SetCursor(0, 0)) =~= state_command_calls(
                    old(self).buffer@,
                    old(self).cursor - 1,
                ));
            }
        } else if sf_id == 0x81 {
            let ghost l1 = state.calls();
            state.detect_fields();
            proof {
                lemma_calls_push(log0, l1, Seq::<CallShape>::empty(), StateCall::DetectFields, CallShape::DetectFields);
                assert(Seq::<CallShape>::empty().push(CallShape::DetectFields) =~= state_command_calls(
                    old(self).buffer@,
                    old(self).cursor - 1,
                ));
            }
        } else {
            assert(state_command_calls(old(self).buffer@, old(self).cursor - 1) =~= Seq::<CallShape>::empty());
        }
        self.cursor = self.cursor + length;
        Ok(())
    }
}

} // verus!
