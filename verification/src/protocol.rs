//! The earlier 5250 protocol processor, kept beside `lib5250::protocol`:
//! packets with a length that counts the flags byte, a Write to Display
//! that draws straight onto an 80 x 24 screen, structured fields that are
//! checked and mostly ignored, and saving and restoring the screen.

use vstd::prelude::*;
use crate::terminal::{put_text, CharAttribute, TerminalChar, TerminalScreen, TERMINAL_HEIGHT, TERMINAL_WIDTH};
use crate::text::{append_bytes, push_utf8, str_to_string};
use crate::lib5250::session::wrap_inc;
use vstd::utf8::encode_utf8;

verus! {

/// The character this processor shows for an EBCDIC byte (its own
/// table; bytes it does not list show as NUL).
pub open spec fn legacy_ebcdic_char(b: u8) -> char {
    if b == 64 {
        ' '
    } else if b == 75 {
        '.'
    } else if b == 76 {
        '<'
    } else if b == 77 {
        '('
    } else if b == 78 {
        '+'
    } else if b == 79 {
        '|'
    } else if b == 80 {
        '&'
    } else if b == 91 {
        '!'
    } else if b == 92 {
        '$'
    } else if b == 93 {
        '*'
    } else if b == 94 {
        ')'
    } else if b == 95 {
        ';'
    } else if b == 96 {
        '-'
    } else if b == 97 {
        '/'
    } else if b == 106 {
        ','
    } else if b == 107 {
        '%'
    } else if b == 108 {
        '_'
    } else if b == 109 {
        '>'
    } else if b == 110 {
        '?'
    } else if b == 120 {
        ':'
    } else if b == 121 {
        '#'
    } else if b == 122 {
        '@'
    } else if b == 123 {
        '\''
    } else if b == 124 {
        '='
    } else if b == 125 {
        '"'
    } else if 127 <= b && b <= 135 {
        ((b - 127 + 97) as u8) as char
    } else if 143 <= b && b <= 151 {
        ((b - 143 + 106) as u8) as char
    } else if 160 <= b && b <= 167 {
        ((b - 160 + 115) as u8) as char
    } else if 193 <= b && b <= 201 {
        ((b - 193 + 65) as u8) as char
    } else if 209 <= b && b <= 217 {
        ((b - 209 + 74) as u8) as char
    } else if 226 <= b && b <= 233 {
        ((b - 226 + 83) as u8) as char
    } else if 240 <= b && b <= 249 {
        ((b - 240 + 48) as u8) as char
    } else {
        '\0'
    }
}

/// The character this processor shows for an EBCDIC byte.
fn ebcdic_to_ascii(b: u8) -> (r: char)
    ensures
        r == legacy_ebcdic_char(b),
{
    if b == 64 {
        ' '
    } else if b == 75 {
        '.'
    } else if b == 76 {
        '<'
    } else if b == 77 {
        '('
    } else if b == 78 {
        '+'
    } else if b == 79 {
        '|'
    } else if b == 80 {
        '&'
    } else if b == 91 {
        '!'
    } else if b == 92 {
        '$'
    } else if b == 93 {
        '*'
    } else if b == 94 {
        ')'
    } else if b == 95 {
        ';'
    } else if b == 96 {
        '-'
    } else if b == 97 {
        '/'
    } else if b == 106 {
        ','
    } else if b == 107 {
        '%'
    } else if b == 108 {
        '_'
    } else if b == 109 {
        '>'
    } else if b == 110 {
        '?'
    } else if b == 120 {
        ':'
    } else if b == 121 {
        '#'
    } else if b == 122 {
        '@'
    } else if b == 123 {
        '\''
    } else if b == 124 {
        '='
    } else if b == 125 {
        '"'
    } else if 127 <= b && b <= 135 {
        (b - 127 + 97) as char
    } else if 143 <= b && b <= 151 {
        (b - 143 + 106) as char
    } else if 160 <= b && b <= 167 {
        (b - 160 + 115) as char
    } else if 193 <= b && b <= 201 {
        (b - 193 + 65) as char
    } else if 209 <= b && b <= 217 {
        (b - 209 + 74) as char
    } else if 226 <= b && b <= 233 {
        (b - 226 + 83) as char
    } else if 240 <= b && b <= 249 {
        (b - 240 + 48) as char
    } else {
        '\0'
    }
}

/// The commands this processor knows.
#[derive(Debug, Clone, Copy, PartialEq, Eq, Structural)]
pub enum CommandCode {
    WriteToDisplay,
    ReadBuffer,
    ReadToMemory,
    Save,
    WriteStructuredField,
    ReadStructuredField,
    Restore,
    TransferData,
    WriteToDisplayAndIdentify,
    ReadBufferAndIdentify,
    CancelInvite,
    ReadModified,
    ReadImmediate,
    ReadModifiedAll,
    SavePartial,
    RestorePartial,
}

impl CommandCode {
    /// The command's byte.
    pub open spec fn spec_byte(self) -> u8 {
        match self {
            CommandCode::WriteToDisplay => 0xF1,
            CommandCode::ReadBuffer => 0xF2,
            CommandCode::ReadToMemory => 0xF3,
            CommandCode::Save => 0xF4,
            CommandCode::WriteStructuredField => 0xF5,
            CommandCode::ReadStructuredField => 0xF6,
            CommandCode::Restore => 0x62,
            CommandCode::TransferData => 0xF7,
            CommandCode::WriteToDisplayAndIdentify => 0xF8,
            CommandCode::ReadBufferAndIdentify => 0xF9,
            CommandCode::CancelInvite => 0xFA,
            CommandCode::ReadModified => 0xFB,
            CommandCode::ReadImmediate => 0xFC,
            CommandCode::ReadModifiedAll => 0xFD,
            CommandCode::SavePartial => 0xFE,
            CommandCode::RestorePartial => 0xFF,
        }
    }

    /// The command with a byte, if any.
    pub open spec fn spec_from_byte(value: u8) -> Option<Self> {
        if value == 0xF1 {
            Some(CommandCode::WriteToDisplay)
        } else if value == 0xF2 {
            Some(CommandCode::ReadBuffer)
        } else if value == 0xF3 {
            Some(CommandCode::ReadToMemory)
        } else if value == 0xF4 {
            Some(CommandCode::Save)
        } else if value == 0xF5 {
            Some(CommandCode::WriteStructuredField)
        } else if value == 0xF6 {
            Some(CommandCode::ReadStructuredField)
        } else if value == 0x62 {
            Some(CommandCode::Restore)
        } else if value == 0xF7 {
            Some(CommandCode::TransferData)
        } else if value == 0xF8 {
            Some(CommandCode::WriteToDisplayAndIdentify)
        } else if value == 0xF9 {
            Some(CommandCode::ReadBufferAndIdentify)
        } else if value == 0xFA {
            Some(CommandCode::CancelInvite)
        } else if value == 0xFB {
            Some(CommandCode::ReadModified)
        } else if value == 0xFC {
            Some(CommandCode::ReadImmediate)
        } else if value == 0xFD {
            Some(CommandCode::ReadModifiedAll)
        } else if value == 0xFE {
            Some(CommandCode::SavePartial)
        } else if value == 0xFF {
            Some(CommandCode::RestorePartial)
        } else {
            None
        }
    }

    /// The command with a byte, if any.
    pub fn from_u8(value: u8) -> (r: Option<Self>)
        ensures
            r == Self::spec_from_byte(value),
    {
        if value == 0xF1 {
            Some(CommandCode::WriteToDisplay)
        } else if value == 0xF2 {
            Some(CommandCode::ReadBuffer)
        } else if value == 0xF3 {
            Some(CommandCode::ReadToMemory)
        } else if value == 0xF4 {
            Some(CommandCode::Save)
        } else if value == 0xF5 {
            Some(CommandCode::WriteStructuredField)
        } else if value == 0xF6 {
            Some(CommandCode::ReadStructuredField)
        } else if value == 0x62 {
            Some(CommandCode::Restore)
        } else if value == 0xF7 {
            Some(CommandCode::TransferData)
        } else if value == 0xF8 {
            Some(CommandCode::WriteToDisplayAndIdentify)
        } else if value == 0xF9 {
            Some(CommandCode::ReadBufferAndIdentify)
        } else if value == 0xFA {
            Some(CommandCode::CancelInvite)
        } else if value == 0xFB {
            Some(CommandCode::ReadModified)
        } else if value == 0xFC {
            Some(CommandCode::ReadImmediate)
        } else if value == 0xFD {
            Some(CommandCode::ReadModifiedAll)
        } else if value == 0xFE {
            Some(CommandCode::SavePartial)
        } else if value == 0xFF {
            Some(CommandCode::RestorePartial)
        } else {
            None
        }
    }

    /// The command's byte.
    pub fn to_u8(&self) -> (r: u8)
        ensures
            r == self.spec_byte(),
    {
        match self {
            CommandCode::WriteToDisplay => 0xF1,
            CommandCode::ReadBuffer => 0xF2,
            CommandCode::ReadToMemory => 0xF3,
            CommandCode::Save => 0xF4,
            CommandCode::WriteStructuredField => 0xF5,
            CommandCode::ReadStructuredField => 0xF6,
            CommandCode::Restore => 0x62,
            CommandCode::TransferData => 0xF7,
            CommandCode::WriteToDisplayAndIdentify => 0xF8,
            CommandCode::ReadBufferAndIdentify => 0xF9,
            CommandCode::CancelInvite => 0xFA,
            CommandCode::ReadModified => 0xFB,
            CommandCode::ReadImmediate => 0xFC,
            CommandCode::ReadModifiedAll => 0xFD,
            CommandCode::SavePartial => 0xFE,
            CommandCode::RestorePartial => 0xFF,
        }
    }

    /// The command a reply to this one carries: the read commands and
    /// Transfer Data and the identify commands answer with themselves.
    pub open spec fn spec_response(self) -> Option<Self> {
        match self {
            CommandCode::ReadBuffer => Some(CommandCode::ReadBuffer),
            CommandCode::ReadToMemory => Some(CommandCode::ReadToMemory),
            CommandCode::ReadStructuredField => Some(CommandCode::ReadStructuredField),
            CommandCode::TransferData => Some(CommandCode::TransferData),
            CommandCode::WriteToDisplayAndIdentify => Some(CommandCode::WriteToDisplayAndIdentify),
            CommandCode::ReadBufferAndIdentify => Some(CommandCode::ReadBufferAndIdentify),
            CommandCode::ReadModified => Some(CommandCode::ReadModified),
            CommandCode::ReadImmediate => Some(CommandCode::ReadImmediate),
            CommandCode::ReadModifiedAll => Some(CommandCode::ReadModifiedAll),
            _ => None,
        }
    }

    /// The command a reply to this one carries (see `spec_response`).
    pub fn get_response_command(&self) -> (r: Option<Self>)
        ensures
            r == self.spec_response(),
    {
        match self {
            CommandCode::ReadBuffer => Some(CommandCode::ReadBuffer),
            CommandCode::ReadToMemory => Some(CommandCode::ReadToMemory),
            CommandCode::ReadStructuredField => Some(CommandCode::ReadStructuredField),
            CommandCode::TransferData => Some(CommandCode::TransferData),
            CommandCode::WriteToDisplayAndIdentify => Some(CommandCode::WriteToDisplayAndIdentify),
            CommandCode::ReadBufferAndIdentify => Some(CommandCode::ReadBufferAndIdentify),
            CommandCode::ReadModified => Some(CommandCode::ReadModified),
            CommandCode::ReadImmediate => Some(CommandCode::ReadImmediate),
            CommandCode::ReadModifiedAll => Some(CommandCode::ReadModifiedAll),
            _ => None,
        }
    }
}

/// Decoding a command's byte gives the command back.
pub proof fn lemma_command_roundtrip(c: CommandCode)
    ensures
        CommandCode::spec_from_byte(c.spec_byte()) == Some(c),
{
}

/// Field attribute kinds.
#[derive(Debug, Clone, Copy, PartialEq, Eq, Structural)]
pub enum FieldAttribute {
    Normal,
    Intensified,
    Protected,
    Numeric,
    Skip,
    Mandatory,
    DupEnable,
    Hidden,
}

impl FieldAttribute {
    /// The kind given by bits 2 to 5 of an attribute byte.
    pub open spec fn spec_from_byte(value: u8) -> Self {
        let bits = value & 0x3C;
        if bits == 0x20 {
            FieldAttribute::Protected
        } else if bits == 0x10 {
            FieldAttribute::Numeric
        } else if bits == 0x08 {
            FieldAttribute::Skip
        } else if bits == 0x0C {
            FieldAttribute::Mandatory
        } else if bits == 0x04 {
            FieldAttribute::DupEnable
        } else {
            FieldAttribute::Normal
        }
    }

    /// The attribute bits of a kind.
    pub open spec fn spec_byte(self) -> u8 {
        match self {
            FieldAttribute::Normal => 0x00,
            FieldAttribute::Intensified => 0x20,
            FieldAttribute::Protected => 0x20,
            FieldAttribute::Numeric => 0x10,
            FieldAttribute::Skip => 0x08,
            FieldAttribute::Mandatory => 0x0C,
            FieldAttribute::DupEnable => 0x04,
            FieldAttribute::Hidden => 0x0C,
        }
    }

    /// The kind given by bits 2 to 5 of an attribute byte.
    pub fn from_u8(value: u8) -> (r: Self)
        ensures
            r == Self::spec_from_byte(value),
    {
        let bits = value & 0x3C;
        if bits == 0x20 {
            FieldAttribute::Protected
        } else if bits == 0x10 {
            FieldAttribute::Numeric
        } else if bits == 0x08 {
            FieldAttribute::Skip
        } else if bits == 0x0C {
            FieldAttribute::Mandatory
        } else if bits == 0x04 {
            FieldAttribute::DupEnable
        } else {
            FieldAttribute::Normal
        }
    }

    /// The attribute bits of a kind.
    pub fn to_u8(&self) -> (r: u8)
        ensures
            r == self.spec_byte(),
    {
        match self {
            FieldAttribute::Normal => 0x00,
            FieldAttribute::Intensified => 0x20,
            FieldAttribute::Protected => 0x20,
            FieldAttribute::Numeric => 0x10,
            FieldAttribute::Skip => 0x08,
            FieldAttribute::Mandatory => 0x0C,
            FieldAttribute::DupEnable => 0x04,
            FieldAttribute::Hidden => 0x0C,
        }
    }
}

/// Character attribute kinds.
#[derive(Debug, Clone, Copy, PartialEq, Eq, Structural)]
pub enum CharAttribute5250 {
    Normal,
    Intensified,
    NonDisplay,
    Protected,
    NonDisplayNonDup,
}

impl CharAttribute5250 {
    /// The kind given by the low four bits of an attribute byte.
    pub open spec fn spec_from_byte(value: u8) -> Self {
        let bits = value & 0x0F;
        if bits == 0x02 {
            CharAttribute5250::Intensified
        } else if bits == 0x03 {
            CharAttribute5250::NonDisplay
        } else if bits == 0x04 {
            CharAttribute5250::Protected
        } else if bits == 0x05 {
            CharAttribute5250::NonDisplayNonDup
        } else {
            CharAttribute5250::Normal
        }
    }

    /// The kind given by the low four bits of an attribute byte.
    pub fn from_u8(value: u8) -> (r: Self)
        ensures
            r == Self::spec_from_byte(value),
    {
        let bits = value & 0x0F;
        if bits == 0x02 {
            CharAttribute5250::Intensified
        } else if bits == 0x03 {
            CharAttribute5250::NonDisplay
        } else if bits == 0x04 {
            CharAttribute5250::Protected
        } else if bits == 0x05 {
            CharAttribute5250::NonDisplayNonDup
        } else {
            CharAttribute5250::Normal
        }
    }

    /// The screen attribute of a kind (both non-display kinds hide).
    pub fn to_char_attribute(&self) -> (r: CharAttribute)
        ensures
            r == match *self {
                CharAttribute5250::Normal => CharAttribute::Normal,
                CharAttribute5250::Intensified => CharAttribute::Intensified,
                CharAttribute5250::NonDisplay => CharAttribute::NonDisplay,
                CharAttribute5250::Protected => CharAttribute::Protected,
                CharAttribute5250::NonDisplayNonDup => CharAttribute::NonDisplay,
            },
    {
        match self {
            CharAttribute5250::Normal => CharAttribute::Normal,
            CharAttribute5250::Intensified => CharAttribute::Intensified,
            CharAttribute5250::NonDisplay => CharAttribute::NonDisplay,
            CharAttribute5250::Protected => CharAttribute::Protected,
            CharAttribute5250::NonDisplayNonDup => CharAttribute::NonDisplay,
        }
    }
}

/// Structured field identifiers.
#[derive(Debug, Clone, Copy, PartialEq, Eq, Structural)]
pub enum StructuredFieldID {
    CreateChangeExtendedAttribute,
    SetExtendedAttributeList,
    ReadText,
    EraseReset,
    DefineExtendedAttribute,
    DefineNamedLogicalUnit,
    DefinePendingOperations,
    DisableCommandRecognition,
    EnableCommandRecognition,
    RequestMinimumTimestampInterval,
    QueryCommand,
    SetReplyMode,
    DefineRollDirection,
    SetMonitorMode,
    CancelRecovery,
}

impl StructuredFieldID {
    /// The identifier with a byte, if any.
    pub open spec fn spec_from_byte(value: u8) -> Option<Self> {
        if value == 0xC1 {
            Some(StructuredFieldID::CreateChangeExtendedAttribute)
        } else if value == 0xCA {
            Some(StructuredFieldID::SetExtendedAttributeList)
        } else if value == 0xD2 {
            Some(StructuredFieldID::ReadText)
        } else if value == 0x5B {
            Some(StructuredFieldID::EraseReset)
        } else if value == 0xD3 {
            Some(StructuredFieldID::DefineExtendedAttribute)
        } else if value == 0x7E {
            Some(StructuredFieldID::DefineNamedLogicalUnit)
        } else if value == 0x80 {
            Some(StructuredFieldID::DefinePendingOperations)
        } else if value == 0x81 {
            Some(StructuredFieldID::DisableCommandRecognition)
        } else if value == 0x82 {
            Some(StructuredFieldID::EnableCommandRecognition)
        } else if value == 0x83 {
            Some(StructuredFieldID::RequestMinimumTimestampInterval)
        } else if value == 0x84 {
            Some(StructuredFieldID::QueryCommand)
        } else if value == 0x85 {
            Some(StructuredFieldID::SetReplyMode)
        } else if value == 0x86 {
            Some(StructuredFieldID::DefineRollDirection)
        } else if value == 0x87 {
            Some(StructuredFieldID::SetMonitorMode)
        } else if value == 0x88 {
            Some(StructuredFieldID::CancelRecovery)
        } else {
            None
        }
    }

    /// The identifier with a byte, if any.
    pub fn from_u8(value: u8) -> (r: Option<Self>)
        ensures
            r == Self::spec_from_byte(value),
    {
        if value == 0xC1 {
            Some(StructuredFieldID::CreateChangeExtendedAttribute)
        } else if value == 0xCA {
            Some(StructuredFieldID::SetExtendedAttributeList)
        } else if value == 0xD2 {
            Some(StructuredFieldID::ReadText)
        } else if value == 0x5B {
            Some(StructuredFieldID::EraseReset)
        } else if value == 0xD3 {
            Some(StructuredFieldID::DefineExtendedAttribute)
        } else if value == 0x7E {
            Some(StructuredFieldID::DefineNamedLogicalUnit)
        } else if value == 0x80 {
            Some(StructuredFieldID::DefinePendingOperations)
        } else if value == 0x81 {
            Some(StructuredFieldID::DisableCommandRecognition)
        } else if value == 0x82 {
            Some(StructuredFieldID::EnableCommandRecognition)
        } else if value == 0x83 {
            Some(StructuredFieldID::RequestMinimumTimestampInterval)
        } else if value == 0x84 {
            Some(StructuredFieldID::QueryCommand)
        } else if value == 0x85 {
            Some(StructuredFieldID::SetReplyMode)
        } else if value == 0x86 {
            Some(StructuredFieldID::DefineRollDirection)
        } else if value == 0x87 {
            Some(StructuredFieldID::SetMonitorMode)
        } else if value == 0x88 {
            Some(StructuredFieldID::CancelRecovery)
        } else {
            None
        }
    }
}

/// A packet of this processor.
#[derive(Debug)]
pub struct Packet {
    pub command: CommandCode,
    pub sequence_number: u8,
    pub data: Vec<u8>,
    pub flags: u8,
}

/// The wire form: command, sequence number, a two-byte length that counts
/// the flags byte and the data (cut to 16 bits), the flags and the data.
pub open spec fn packet_bytes(command: CommandCode, sequence_number: u8, flags: u8, data: Seq<u8>) -> Seq<u8> {
    let length = (data.len() + 1) % 65536;
    seq![command.spec_byte(), sequence_number, (length / 256) as u8, (length % 256) as u8, flags] + data
}

/// The packet bytes hold, as (command, sequence number, flags, data): at
/// least four and at most 65535 bytes; the length field must fit after the
/// four-byte header; the flags are the fifth byte (0 when there is none);
/// the data start at byte 5 when there are more than five bytes, else at
/// byte 4, and run for the length; the command must be a known one of
/// 0x80 and up.
pub open spec fn parse_packet(bytes: Seq<u8>) -> Option<(CommandCode, u8, u8, Seq<u8>)> {
    if bytes.len() < 4 || bytes.len() > 65535 {
        None
    } else {
        let length = bytes[2] as int * 256 + bytes[3] as int;
        let flags = if bytes.len() > 4 { bytes[4] } else { 0u8 };
        let start: int = if bytes.len() > 5 { 5 } else { 4 };
        if length > bytes.len() || 4 + length > bytes.len() || length > bytes.len() - start {
            None
        } else if bytes[0] < 0x80 {
            None
        } else {
            match CommandCode::spec_from_byte(bytes[0]) {
                Some(c) => Some((c, bytes[1], flags, bytes.subrange(start, start + length))),
                None => None,
            }
        }
    }
}

impl Packet {
    /// A packet with no flags.
    pub fn new(command: CommandCode, sequence_number: u8, data: Vec<u8>) -> (r: Self)
        ensures
            r.command == command,
            r.sequence_number == sequence_number,
            r.data@ == data@,
            r.flags == 0,
    {
        Packet { command, sequence_number, data, flags: 0 }
    }

    /// A packet with flags.
    pub fn new_with_flags(command: CommandCode, sequence_number: u8, data: Vec<u8>, flags: u8) -> (r: Self)
        ensures
            r.command == command,
            r.sequence_number == sequence_number,
            r.data@ == data@,
            r.flags == flags,
    {
        Packet { command, sequence_number, data, flags }
    }

    /// The packet's wire form (see `packet_bytes`).
    pub fn to_bytes(&self) -> (r: Vec<u8>)
        ensures
            r@ == packet_bytes(self.command, self.sequence_number, self.flags, self.data@),
    {
        let mut result: Vec<u8> = Vec::new();
        result.push(self.command.to_u8());
        result.push(self.sequence_number);
        let length: usize = (self.data.len() % 65536 + 1) % 65536;
        proof {
            assert(((self.data@.len() % 65536 + 1) % 65536) == (self.data@.len() + 1) % 65536) by (nonlinear_arith);
        }
        result.push((length / 256) as u8);
        result.push((length % 256) as u8);
        result.push(self.flags);
        let ghost head = result@;
        crate::text::append_bytes(&mut result, self.data.as_slice());
        assert(result@ =~= packet_bytes(self.command, self.sequence_number, self.flags, self.data@));
        result
    }

    /// The packet bytes hold (see `parse_packet`).
    pub fn from_bytes(bytes: &[u8]) -> (r: Option<Self>)
        ensures
            match parse_packet(bytes@) {
                Some((c, s, f, d)) => r matches Some(p) && p.command == c && p.sequence_number == s && p.flags == f && p.data@ == d,
                None => r is None,
            },
    {
        if bytes.len() < 4 {
            return None;
        }
        if bytes.len() > 65535 {
            return None;
        }
        let command_byte = bytes[0];
        let sequence_number = bytes[1];
        let length = (bytes[2] as usize) * 256 + (bytes[3] as usize);
        if length > bytes.len() {
            return None;
        }
        if 4 + length > bytes.len() {
            return None;
        }
        let flags = if bytes.len() > 4 { bytes[4] } else { 0 };
        let data_start: usize = if bytes.len() > 5 { 5 } else { 4 };
        if data_start > bytes.len() || length > bytes.len() - data_start {
            return None;
        }
        let mut data: Vec<u8> = Vec::new();
        let mut i: usize = 0;
        while i < length
            invariant
                i <= length,
                data_start + length <= bytes@.len(),
                bytes@.len() <= 65535,
                data@ == bytes@.subrange(data_start as int, data_start + i),
            decreases length - i,
        {
            data.push(bytes[data_start + i]);
            i = i + 1;
            assert(data@ =~= bytes@.subrange(data_start as int, data_start + i));
        }
        if command_byte >= 0x80 {
            match CommandCode::from_u8(command_byte) {
                Some(command) => Some(Packet::new_with_flags(command, sequence_number, data, flags)),
                None => None,
            }
        } else {
            None
        }
    }
}

/// The wire form's length counts the flags byte, and parsing takes that
/// many bytes after the flags: a packet with data (up to 65529 bytes)
/// does not parse from its own bytes.
pub proof fn lemma_packet_bytes_do_not_parse(command: CommandCode, sequence_number: u8, flags: u8, data: Seq<u8>)
    requires
        0 < data.len() <= 65529,
    ensures
        parse_packet(packet_bytes(command, sequence_number, flags, data)) is None,
{
    let b = packet_bytes(command, sequence_number, flags, data);
    let n = data.len() + 1;
    assert(b[2] as int * 256 + b[3] as int == n) by (nonlinear_arith)
        requires b[2] == (n / 256) as u8, b[3] == (n % 256) as u8, 0 < n < 65536;
}

/// Keyboard states.
#[derive(Debug, Clone, Copy, PartialEq, Eq, Structural)]
pub enum KeyboardState {
    Normal,
    FieldExit,
    ProgramMessageKey,
    Attention,
    /// A function key, F1 to F24.
    FunctionKey(u8),
}

/// The device identification the processor starts with.
pub const DEFAULT_DEVICE_ID: &'static str = "IBM-5555-C01";

/// The cursor of the processor.
#[derive(Debug, Clone, Copy)]
struct CursorPosition {
    x: usize,
    y: usize,
}

/// The cursor one column on: past the last column to the start of the
/// next row (staying on the last row).
pub open spec fn right_of(x: usize, y: usize) -> (usize, usize) {
    if x + 1 >= TERMINAL_WIDTH {
        (0, down_of(y))
    } else {
        ((x + 1) as usize, y)
    }
}

/// The row below (staying on the last row).
pub open spec fn down_of(y: usize) -> usize {
    if y < TERMINAL_HEIGHT - 1 { (y + 1) as usize } else { y }
}

/// Move to (x, y) when that is on the screen.
pub open spec fn moved_to(x: usize, y: usize, nx: usize, ny: usize) -> (usize, usize) {
    if nx < TERMINAL_WIDTH && ny < TERMINAL_HEIGHT { (nx, ny) } else { (x, y) }
}

impl CursorPosition {
    fn new() -> (r: Self)
        ensures
            r.x == 0 && r.y == 0,
    {
        CursorPosition { x: 0, y: 0 }
    }

    fn move_right(&mut self)
        requires
            old(self).x < TERMINAL_WIDTH,
        ensures
            (final(self).x, final(self).y) == right_of(old(self).x, old(self).y),
    {
        if self.x + 1 >= TERMINAL_WIDTH {
            self.x = 0;
            self.move_down();
        } else {
            self.x = self.x + 1;
        }
    }

    fn move_down(&mut self)
        ensures
            final(self).x == old(self).x,
            final(self).y == down_of(old(self).y),
    {
        if self.y < TERMINAL_HEIGHT - 1 {
            self.y = self.y + 1;
        }
    }

    fn move_to(&mut self, x: usize, y: usize)
        ensures
            (final(self).x, final(self).y) == moved_to(old(self).x, old(self).y, x, y),
    {
        if x < TERMINAL_WIDTH && y < TERMINAL_HEIGHT {
            self.x = x;
            self.y = y;
        }
    }

    fn get_position(&self) -> (r: (usize, usize))
        ensures
            r == (self.x, self.y),
    {
        (self.x, self.y)
    }
}

/// A saved screen: its cells and screen cursor.
#[derive(Debug, Clone)]
struct SavedScreenState {
    buffer: Vec<TerminalChar>,
    cursor_x: usize,
    cursor_y: usize,
}

/// A byte less one, stopping at zero.
pub open spec fn sat_dec(b: u8) -> usize {
    if b == 0 { 0 } else { (b - 1) as usize }
}

/// The blank 80 x 24 screen.
pub open spec fn blank_screen() -> Seq<TerminalChar> {
    Seq::new(1920, |i: int| TerminalChar::spec_blank())
}

/// The Write to Display of this processor from `pos`: 0x11 takes an
/// attribute byte (a skip attribute moves the cursor on), 0x15 and 0x25
/// take one byte, 0x1A takes a row and a column (from 1) to move to, 0x28
/// and 0xFF are ignored, 0x5A blanks the screen and homes the cursor;
/// any other byte is shown (see `legacy_ebcdic_char`) at the cursor,
/// which moves on (line breaks, carriage returns and tabs move it
/// instead). Returns the cells and the cursor.
pub open spec fn legacy_wtd(data: Seq<u8>, pos: int, cells: Seq<TerminalChar>, x: usize, y: usize) -> (Seq<TerminalChar>, usize, usize)
    decreases data.len() - pos,
{
    if pos < 0 || pos >= data.len() {
        (cells, x, y)
    } else {
        let b = data[pos];
        let p = pos + 1;
        if b == 0x11 {
            if p < data.len() {
                let c = if FieldAttribute::spec_from_byte(data[p]) == FieldAttribute::Skip { right_of(x, y) } else { (x, y) };
                legacy_wtd(data, p + 1, cells, c.0, c.1)
            } else {
                legacy_wtd(data, p, cells, x, y)
            }
        } else if b == 0x15 || b == 0x25 {
            legacy_wtd(data, if p < data.len() { p + 1 } else { p }, cells, x, y)
        } else if b == 0x1A {
            if p + 1 < data.len() {
                let c = moved_to(x, y, sat_dec(data[p + 1]), sat_dec(data[p]));
                legacy_wtd(data, p + 2, cells, c.0, c.1)
            } else {
                legacy_wtd(data, p, cells, x, y)
            }
        } else if b == 0x28 || b == 0xFF {
            legacy_wtd(data, p, cells, x, y)
        } else if b == 0x5A {
            legacy_wtd(data, p, Seq::new(cells.len(), |i: int| TerminalChar::spec_blank()), 0, 0)
        } else {
            let ch = legacy_ebcdic_char(b);
            if ch == '\n' || ch == '\r' {
                legacy_wtd(data, p, cells, 0, down_of(y))
            } else if ch == '\t' {
                let stop = (x + 8) / 8 * 8;
                legacy_wtd(data, p, cells, if stop < TERMINAL_WIDTH - 1 { stop as usize } else { (TERMINAL_WIDTH - 1) as usize }, y)
            } else if y < TERMINAL_HEIGHT && x < TERMINAL_WIDTH {
                let c = right_of(x, y);
                legacy_wtd(data, p, cells.update(y * TERMINAL_WIDTH + x, TerminalChar { character: ch, attribute: CharAttribute::Normal }), c.0, c.1)
            } else {
                legacy_wtd(data, p, cells, x, y)
            }
        }
    }
}

/// What a structured field of this processor gives: a header of flags,
/// identifier and two length bytes is needed; at most 65535 bytes; the
/// length must fit after the header; a Create/Change Extended Attribute
/// (0xC1) needs three data bytes. Nothing else is done with it.
pub open spec fn legacy_sf_outcome(data: Seq<u8>) -> Result<(), Seq<char>> {
    if data.len() < 4 {
        Err("Structured field too short - missing header"@)
    } else if data.len() > 65535 {
        Err("Structured field too large - possible DoS attempt"@)
    } else {
        let length = data[2] as int * 256 + data[3] as int;
        if length > data.len() - 4 {
            Err("Invalid structured field length - exceeds data bounds"@)
        } else if data[1] == 0xC1 && length < 3 {
            Err("Insufficient data for extended attribute"@)
        } else {
            Ok(())
        }
    }
}

/// What the processor holds, as values: the screen cells, the processor's
/// cursor and the screen's, whether the screen is to be redrawn and its
/// keyboard locked, the connection flag, the sequence number of the last
/// reply, the pending input, the keyboard state, the device
/// identification, the saved screen and the number of pending replies.
pub ghost struct ProcessorModel {
    pub cells: Seq<TerminalChar>,
    pub cursor: (usize, usize),
    pub screen_cursor: (usize, usize),
    pub dirty: bool,
    pub keyboard_locked: bool,
    pub connected: bool,
    pub sequence: u8,
    pub input: Seq<u8>,
    pub keyboard: KeyboardState,
    pub device: Seq<char>,
    pub saved: Option<(Seq<TerminalChar>, usize, usize)>,
    pub pending: nat,
}

/// A reply as (command, sequence number, flags, data).
pub type Reply = (CommandCode, u8, u8, Seq<u8>);

/// A packet as a reply.
pub open spec fn reply_of(p: Packet) -> Reply {
    (p.command, p.sequence_number, p.flags, p.data@)
}

/// Packets as replies.
pub open spec fn replies_of(v: Seq<Packet>) -> Seq<Reply> {
    v.map_values(|p: Packet| reply_of(p))
}

/// Write to Display (see `legacy_wtd`): both cursors take the new
/// position and the screen is to be redrawn.
pub open spec fn model_wtd(m: ProcessorModel, data: Seq<u8>) -> ProcessorModel {
    let o = legacy_wtd(data, 0, m.cells, m.cursor.0, m.cursor.1);
    ProcessorModel { cells: o.0, cursor: (o.1, o.2), screen_cursor: (o.1, o.2), dirty: true, ..m }
}

/// A reply without flags under the next sequence number (wrapping past 255).
pub open spec fn numbered(m: ProcessorModel, command: CommandCode, data: Seq<u8>) -> (ProcessorModel, Reply) {
    let s = wrap_inc(m.sequence);
    (ProcessorModel { sequence: s, ..m }, (command, s, 0u8, data))
}

/// A reply that hands over, and empties, the pending input.
pub open spec fn input_reply(m: ProcessorModel, command: CommandCode) -> (ProcessorModel, Reply) {
    numbered(ProcessorModel { input: Seq::empty(), ..m }, command, m.input)
}

/// The device identification reply: the identification's UTF-8 bytes and a
/// zero byte.
pub open spec fn identification(m: ProcessorModel) -> (ProcessorModel, Reply) {
    numbered(m, CommandCode::WriteToDisplayAndIdentify, encode_utf8(m.device).push(0u8))
}

/// Save the whole screen with the screen's cursor.
pub open spec fn full_save(m: ProcessorModel) -> ProcessorModel {
    ProcessorModel { saved: Some((m.cells, m.screen_cursor.0, m.screen_cursor.1)), ..m }
}

/// Bring a saved screen back, cells and cursor (the processor's cursor
/// moves there when it is on the screen); nothing without one.
pub open spec fn model_restore(m: ProcessorModel) -> ProcessorModel {
    match m.saved {
        Some(st) => ProcessorModel {
            cells: st.0,
            screen_cursor: (st.1, st.2),
            cursor: moved_to(m.cursor.0, m.cursor.1, st.1, st.2),
            dirty: true,
            ..m
        },
        None => m,
    }
}

/// The data of a partial save or restore name a region: 4 to 1024 bytes,
/// start row and column then end row and column, all on the screen, the
/// end not before the start.
pub open spec fn partial_region(data: Seq<u8>) -> bool {
    &&& 4 <= data.len() <= 1024
    &&& data[0] < TERMINAL_HEIGHT && data[1] < TERMINAL_WIDTH
    &&& data[2] < TERMINAL_HEIGHT && data[3] < TERMINAL_WIDTH
    &&& data[0] <= data[2] && data[1] <= data[3]
}

/// Whether screen position `i` lies in the region.
pub open spec fn in_region(data: Seq<u8>, i: int) -> bool {
    &&& data[0] <= i / TERMINAL_WIDTH as int <= data[2]
    &&& data[1] <= i % TERMINAL_WIDTH as int <= data[3]
}

/// Bring back the region from the saved screen, when the region is valid
/// and a screen was saved.
pub open spec fn model_restore_partial(m: ProcessorModel, data: Seq<u8>) -> ProcessorModel {
    match m.saved {
        Some(st) => if partial_region(data) {
            ProcessorModel {
                cells: Seq::new(m.cells.len(), |i: int| if in_region(data, i) { st.0[i] } else { m.cells[i] }),
                dirty: true,
                ..m
            }
        } else {
            m
        },
        None => m,
    }
}

/// A packet's effect and replies (or the error of a structured field).
pub open spec fn process_step(m: ProcessorModel, command: CommandCode, data: Seq<u8>) -> (ProcessorModel, Result<Seq<Reply>, Seq<char>>) {
    match command {
        CommandCode::WriteToDisplay => (model_wtd(m, data), Ok(Seq::empty())),
        CommandCode::ReadBuffer => {
            let a = input_reply(m, CommandCode::ReadBuffer);
            (a.0, Ok(seq![a.1]))
        },
        CommandCode::ReadModified => {
            let a = input_reply(m, CommandCode::ReadModified);
            (a.0, Ok(seq![a.1]))
        },
        CommandCode::ReadModifiedAll => {
            let a = input_reply(m, CommandCode::ReadModifiedAll);
            (a.0, Ok(seq![a.1]))
        },
        CommandCode::ReadImmediate => {
            let a = numbered(m, CommandCode::ReadImmediate, Seq::empty());
            (a.0, Ok(seq![a.1]))
        },
        CommandCode::WriteToDisplayAndIdentify => {
            let a = identification(model_wtd(m, data));
            (a.0, Ok(seq![a.1]))
        },
        CommandCode::ReadBufferAndIdentify => {
            let a = input_reply(m, CommandCode::ReadBuffer);
            let b = identification(a.0);
            (b.0, Ok(seq![a.1, b.1]))
        },
        CommandCode::WriteStructuredField => match legacy_sf_outcome(data) {
            Ok(_) => (m, Ok(Seq::empty())),
            Err(e) => (m, Err(e)),
        },
        CommandCode::ReadStructuredField => {
            let a = numbered(m, CommandCode::ReadStructuredField, Seq::empty());
            (a.0, Ok(seq![a.1]))
        },
        CommandCode::TransferData => (ProcessorModel { input: m.input + data, ..m }, Ok(Seq::empty())),
        CommandCode::Save => (full_save(m), Ok(Seq::empty())),
        CommandCode::Restore => (model_restore(m), Ok(Seq::empty())),
        CommandCode::SavePartial => (if partial_region(data) { full_save(m) } else { m }, Ok(Seq::empty())),
        CommandCode::RestorePartial => (model_restore_partial(m, data), Ok(Seq::empty())),
        CommandCode::CancelInvite => (ProcessorModel { pending: 0, ..m }, Ok(Seq::empty())),
        CommandCode::ReadToMemory => (m, Ok(Seq::empty())),
    }
}

/// The cells' characters cut to a byte, leaving out zero bytes and spaces.
pub open spec fn nonblank_bytes(cells: Seq<TerminalChar>) -> Seq<u8>
    decreases cells.len(),
{
    if cells.len() == 0 {
        Seq::empty()
    } else {
        let rest = nonblank_bytes(cells.drop_last());
        let b = (cells.last().character as u32) as u8;
        if b != 0 && b != 0x20 { rest.push(b) } else { rest }
    }
}

/// A text's characters cut to a byte each.
pub open spec fn char_bytes(text: Seq<char>) -> Seq<u8> {
    Seq::new(text.len(), |i: int| (text[i] as u32) as u8)
}

/// What the screen shows once connected.
pub const CONNECTED_TEXT: &'static str = "Connected to AS/400 system\nReady...\n";

/// What the screen shows once disconnected.
pub const DISCONNECTED_TEXT: &'static str = "Disconnected from AS/400 system";

/// The processor after connecting (or disconnecting): the flag set, the
/// screen blank but for `text` written from the top left (see
/// `put_text`), the processor's cursor home, no input, no replies, no saved
/// screen, the keyboard state normal.
pub open spec fn connected_model(m: ProcessorModel, connected: bool, text: Seq<char>) -> ProcessorModel {
    let t = put_text(blank_screen(), 0, 0, TERMINAL_WIDTH, TERMINAL_HEIGHT, text);
    ProcessorModel {
        cells: t.0,
        cursor: (0usize, 0usize),
        screen_cursor: (t.1, t.2),
        dirty: true,
        connected,
        input: Seq::empty(),
        keyboard: KeyboardState::Normal,
        saved: None,
        pending: 0,
        ..m
    }
}

/// The earlier 5250 protocol processor.
pub struct ProtocolProcessor {
    pub screen: TerminalScreen,
    cursor: CursorPosition,
    sequence_number: u8,
    pub connected: bool,
    input_buffer: Vec<u8>,
    keyboard_state: KeyboardState,
    pending_responses: Vec<Packet>,
    device_id: String,
    saved_state: Option<SavedScreenState>,
}

impl ProtocolProcessor {
    /// The processor as values.
    pub closed spec fn model(&self) -> ProcessorModel {
        ProcessorModel {
            cells: self.screen.buffer@,
            cursor: (self.cursor.x, self.cursor.y),
            screen_cursor: (self.screen.cursor_x, self.screen.cursor_y),
            dirty: self.screen.dirty,
            keyboard_locked: self.screen.keyboard_locked,
            connected: self.connected,
            sequence: self.sequence_number,
            input: self.input_buffer@,
            keyboard: self.keyboard_state,
            device: self.device_id@,
            saved: match self.saved_state {
                Some(st) => Some((st.buffer@, st.cursor_x, st.cursor_y)),
                None => None,
            },
            pending: self.pending_responses@.len(),
        }
    }

    /// The screen is 80 x 24 with the cursor on it, and a saved screen is
    /// as large.
    pub closed spec fn wf(&self) -> bool {
        &&& self.screen.wf()
        &&& self.screen.width == TERMINAL_WIDTH
        &&& self.screen.height == TERMINAL_HEIGHT
        &&& self.cursor.x < TERMINAL_WIDTH
        &&& self.cursor.y < TERMINAL_HEIGHT
        &&& self.saved_state matches Some(st) ==> st.buffer@.len() == 1920
    }

    /// The model's cells are the 80 x 24 screen.
    pub proof fn lemma_wf(&self)
        requires
            self.wf(),
        ensures
            self.model().cells.len() == 1920,
            self.model().cursor.0 < TERMINAL_WIDTH,
            self.model().cursor.1 < TERMINAL_HEIGHT,
            self.model().saved matches Some(st) ==> st.0.len() == 1920,
    {
    }

    /// A disconnected processor with a blank screen, no input, no saved
    /// screen and the default device identification.
    pub fn new() -> (r: Self)
        ensures
            r.wf(),
            r.model() == (ProcessorModel {
                cells: blank_screen(),
                cursor: (0usize, 0usize),
                screen_cursor: (0usize, 0usize),
                dirty: true,
                keyboard_locked: false,
                connected: false,
                sequence: 0,
                input: Seq::empty(),
                keyboard: KeyboardState::Normal,
                device: DEFAULT_DEVICE_ID@,
                saved: None,
                pending: 0,
            }),
    {
        let r = ProtocolProcessor {
            screen: TerminalScreen::new(),
            cursor: CursorPosition::new(),
            sequence_number: 0,
            connected: false,
            input_buffer: Vec::new(),
            keyboard_state: KeyboardState::Normal,
            pending_responses: Vec::new(),
            device_id: str_to_string(DEFAULT_DEVICE_ID),
            saved_state: None,
        };
        assert(r.model().cells =~= blank_screen());
        r
    }

    /// Write to Display (see `model_wtd`).
    fn process_write_to_display(&mut self, data: &[u8]) -> (r: Result<(), String>)
        requires
            old(self).wf(),
        ensures
            final(self).wf(),
            r is Ok,
            final(self).model() == model_wtd(old(self).model(), data@),
    {
        let ghost target = legacy_wtd(data@, 0, old(self).screen.buffer@, old(self).cursor.x, old(self).cursor.y);
        let mut pos: usize = 0;
        while pos < data.len()
            invariant
                self.wf(),
                pos <= data@.len(),
                legacy_wtd(data@, pos as int, self.screen.buffer@, self.cursor.x, self.cursor.y) == target,
                target == legacy_wtd(data@, 0, old(self).screen.buffer@, old(self).cursor.x, old(self).cursor.y),
                self.screen.keyboard_locked == old(self).screen.keyboard_locked,
                self.sequence_number == old(self).sequence_number,
                self.connected == old(self).connected,
                self.input_buffer == old(self).input_buffer,
                self.keyboard_state == old(self).keyboard_state,
                self.device_id == old(self).device_id,
                self.saved_state == old(self).saved_state,
                self.pending_responses == old(self).pending_responses,
            decreases data@.len() - pos,
        {
            let byte = data[pos];
            pos = pos + 1;
            if byte == 0x11 {
                if pos < data.len() {
                    let attr = FieldAttribute::from_u8(data[pos]);
                    if let FieldAttribute::Skip = attr {
                        self.cursor.move_right();
                    }
                    pos = pos + 1;
                }
            } else if byte == 0x15 || byte == 0x25 {
                if pos < data.len() {
                    pos = pos + 1;
                }
            } else if byte == 0x1A {
                if data.len() - pos > 1 {
                    let row = data[pos];
                    let col = data[pos + 1];
                    let r: usize = if row == 0 { 0 } else { (row - 1) as usize };
                    let c: usize = if col == 0 { 0 } else { (col - 1) as usize };
                    self.cursor.move_to(c, r);
                    pos = pos + 2;
                }
            } else if byte == 0x28 || byte == 0xFF {
            } else if byte == 0x5A {
                self.screen.clear();
                self.cursor = CursorPosition::new();
            } else {
                let ch = ebcdic_to_ascii(byte);
                if ch == '\n' || ch == '\r' {
                    self.cursor.move_down();
                    self.cursor.x = 0;
                } else if ch == '\t' {
                    let tab_stop = (self.cursor.x + 8) / 8 * 8;
                    self.cursor.x = if tab_stop < TERMINAL_WIDTH - 1 { tab_stop } else { TERMINAL_WIDTH - 1 };
                } else if self.cursor.y < TERMINAL_HEIGHT && self.cursor.x < TERMINAL_WIDTH {
                    let index = self.cursor.y * TERMINAL_WIDTH + self.cursor.x;
                    self.screen.buffer.set(index, TerminalChar { character: ch, attribute: CharAttribute::Normal });
                    self.cursor.move_right();
                }
            }
        }
        self.screen.cursor_x = self.cursor.x;
        self.screen.cursor_y = self.cursor.y;
        self.screen.dirty = true;
        Ok(())
    }

    /// A structured field (see `legacy_sf_outcome`); nothing else changes.
    fn process_structured_field(&mut self, data: &[u8]) -> (r: Result<(), String>)
        ensures
            *final(self) == *old(self),
            match legacy_sf_outcome(data@) {
                Ok(_) => r is Ok,
                Err(e) => r matches Err(m) && m@ == e,
            },
    {
        if data.len() < 4 {
            return Err(str_to_string("Structured field too short - missing header"));
        }
        if data.len() > 65535 {
            return Err(str_to_string("Structured field too large - possible DoS attempt"));
        }
        let sfid = data[1];
        let length: usize = (data[2] as usize) * 256 + (data[3] as usize);
        if length > data.len() - 4 {
            return Err(str_to_string("Invalid structured field length - exceeds data bounds"));
        }
        let total_sf_size = 4 + length;
        let sf_data = vstd::slice::slice_subrange(data, 4, total_sf_size);
        if sfid >= 0x80 {
            if let Some(sf_id) = StructuredFieldID::from_u8(sfid) {
                match sf_id {
                    StructuredFieldID::CreateChangeExtendedAttribute => {
                        self.process_create_change_extended_attribute(sf_data)?;
                    },
                    StructuredFieldID::SetExtendedAttributeList => {
                        self.process_set_extended_attribute_list(sf_data)?;
                    },
                    StructuredFieldID::EraseReset => {
                        self.screen.clear();
                        self.cursor = CursorPosition::new();
                    },
                    _ => {},
                }
            }
        }
        Ok(())
    }

    /// A Create/Change Extended Attribute field needs three bytes.
    fn process_create_change_extended_attribute(&mut self, data: &[u8]) -> (r: Result<(), String>)
        ensures
            *final(self) == *old(self),
            data@.len() < 3 ==> (r matches Err(m) && m@ == "Insufficient data for extended attribute"@),
            data@.len() >= 3 ==> r is Ok,
    {
        if data.len() < 3 {
            return Err(str_to_string("Insufficient data for extended attribute"));
        }
        Ok(())
    }

    /// A Set Extended Attribute List field is accepted as it is.
    fn process_set_extended_attribute_list(&mut self, data: &[u8]) -> (r: Result<(), String>)
        ensures
            *final(self) == *old(self),
            r is Ok,
    {
        Ok(())
    }

    /// Transfer Data: the data join the pending input.
    fn process_transfer_data(&mut self, data: &[u8]) -> (r: Result<(), String>)
        requires
            old(self).wf(),
        ensures
            final(self).wf(),
            r is Ok,
            final(self).model() == (ProcessorModel { input: old(self).model().input + data@, ..old(self).model() }),
    {
        append_bytes(&mut self.input_buffer, data);
        Ok(())
    }

    /// The next sequence number (wrapping past 255), now the last one.
    fn next_sequence(&mut self) -> (r: u8)
        requires
            old(self).wf(),
        ensures
            final(self).wf(),
            r == wrap_inc(old(self).model().sequence),
            final(self).model() == (ProcessorModel { sequence: r, ..old(self).model() }),
    {
        self.sequence_number = self.sequence_number.wrapping_add(1);
        self.sequence_number
    }

    /// Hand over the pending input under the next sequence number.
    fn input_response(&mut self, command: CommandCode) -> (r: Packet)
        requires
            old(self).wf(),
        ensures
            final(self).wf(),
            (final(self).model(), reply_of(r)) == input_reply(old(self).model(), command),
    {
        let mut response_data: Vec<u8> = Vec::new();
        std::mem::swap(&mut response_data, &mut self.input_buffer);
        let s = self.next_sequence();
        Packet::new(command, s, response_data)
    }

    /// Reply to Read Buffer with the pending input.
    fn create_read_buffer_response(&mut self) -> (r: Packet)
        requires
            old(self).wf(),
        ensures
            final(self).wf(),
            (final(self).model(), reply_of(r)) == input_reply(old(self).model(), CommandCode::ReadBuffer),
    {
        self.input_response(CommandCode::ReadBuffer)
    }

    /// Reply to Read Modified with the pending input.
    fn create_read_modified_response(&mut self) -> (r: Packet)
        requires
            old(self).wf(),
        ensures
            final(self).wf(),
            (final(self).model(), reply_of(r)) == input_reply(old(self).model(), CommandCode::ReadModified),
    {
        self.input_response(CommandCode::ReadModified)
    }

    /// Reply to Read Modified All with the pending input.
    fn create_read_modified_all_response(&mut self) -> (r: Packet)
        requires
            old(self).wf(),
        ensures
            final(self).wf(),
            (final(self).model(), reply_of(r)) == input_reply(old(self).model(), CommandCode::ReadModifiedAll),
    {
        self.input_response(CommandCode::ReadModifiedAll)
    }

    /// An empty reply to Read Immediate.
    fn create_read_immediate_response(&mut self) -> (r: Packet)
        requires
            old(self).wf(),
        ensures
            final(self).wf(),
            (final(self).model(), reply_of(r)) == numbered(old(self).model(), CommandCode::ReadImmediate, Seq::empty()),
    {
        let s = self.next_sequence();
        Packet::new(CommandCode::ReadImmediate, s, Vec::new())
    }

    /// An empty reply to Read Structured Field.
    fn create_read_structured_field_response(&mut self) -> (r: Packet)
        requires
            old(self).wf(),
        ensures
            final(self).wf(),
            (final(self).model(), reply_of(r)) == numbered(old(self).model(), CommandCode::ReadStructuredField, Seq::empty()),
    {
        let response_data: Vec<u8> = Vec::new();
        let s = self.next_sequence();
        Packet::new(CommandCode::ReadStructuredField, s, response_data)
    }

    /// The device identification reply (see `identification`).
    fn create_device_identification(&mut self) -> (r: Packet)
        requires
            old(self).wf(),
        ensures
            final(self).wf(),
            (final(self).model(), reply_of(r)) == identification(old(self).model()),
    {
        let mut id_data: Vec<u8> = Vec::new();
        push_utf8(&mut id_data, self.device_id.as_str());
        id_data.push(0x00);
        let s = self.next_sequence();
        Packet::new(CommandCode::WriteToDisplayAndIdentify, s, id_data)
    }

    /// Set the device identification.
    pub fn set_device_id(&mut self, device_id: String)
        requires
            old(self).wf(),
        ensures
            final(self).wf(),
            final(self).model() == (ProcessorModel { device: device_id@, ..old(self).model() }),
    {
        self.device_id = device_id;
    }

    /// The device identification.
    pub fn get_device_id(&self) -> (r: &str)
        ensures
            r@ == self.model().device,
    {
        self.device_id.as_str()
    }

    /// A Write to Display packet of the text, each character cut to a byte,
    /// under the next sequence number.
    pub fn create_write_to_display_packet(&mut self, text: &str) -> (r: Packet)
        requires
            old(self).wf(),
        ensures
            final(self).wf(),
            (final(self).model(), reply_of(r)) == numbered(old(self).model(), CommandCode::WriteToDisplay, char_bytes(text@)),
    {
        let mut data: Vec<u8> = Vec::new();
        let n = text.unicode_len();
        let mut i: usize = 0;
        while i < n
            invariant
                n == text@.len(),
                i <= n,
                data@ == char_bytes(text@.take(i as int)),
            decreases n - i,
        {
            let ch = text.get_char(i);
            let code: u32 = ch as u32;
            data.push(#[verifier::truncate] (code as u8));
            i = i + 1;
            assert(data@ =~= char_bytes(text@.take(i as int)));
        }
        assert(text@.take(n as int) =~= text@);
        let s = self.next_sequence();
        Packet::new(CommandCode::WriteToDisplay, s, data)
    }

    /// Add user input to the pending input.
    pub fn add_input(&mut self, input: &[u8])
        requires
            old(self).wf(),
        ensures
            final(self).wf(),
            final(self).model() == (ProcessorModel { input: old(self).model().input + input@, ..old(self).model() }),
    {
        append_bytes(&mut self.input_buffer, input);
    }

    /// Set the keyboard state.
    pub fn set_keyboard_state(&mut self, state: KeyboardState)
        requires
            old(self).wf(),
        ensures
            final(self).wf(),
            final(self).model() == (ProcessorModel { keyboard: state, ..old(self).model() }),
    {
        self.keyboard_state = state;
    }

    /// The keyboard state.
    pub fn get_keyboard_state(&self) -> (r: KeyboardState)
        ensures
            r == self.model().keyboard,
    {
        self.keyboard_state
    }

    /// A copy of the screen's cells with the screen's cursor.
    fn snapshot(&self) -> (r: SavedScreenState)
        requires
            self.wf(),
        ensures
            r.buffer@ == self.model().cells,
            r.cursor_x == self.model().screen_cursor.0,
            r.cursor_y == self.model().screen_cursor.1,
    {
        let mut saved_buffer: Vec<TerminalChar> = Vec::new();
        let mut i: usize = 0;
        while i < self.screen.buffer.len()
            invariant
                i <= self.screen.buffer@.len(),
                saved_buffer@ == self.screen.buffer@.take(i as int),
            decreases self.screen.buffer@.len() - i,
        {
            saved_buffer.push(self.screen.buffer[i]);
            i = i + 1;
            assert(saved_buffer@ =~= self.screen.buffer@.take(i as int));
        }
        assert(self.screen.buffer@.take(i as int) =~= self.screen.buffer@);
        SavedScreenState { buffer: saved_buffer, cursor_x: self.screen.cursor_x, cursor_y: self.screen.cursor_y }
    }

    /// Save the whole screen (see `full_save`).
    fn save_screen_state(&mut self)
        requires
            old(self).wf(),
        ensures
            final(self).wf(),
            final(self).model() == full_save(old(self).model()),
    {
        let st = self.snapshot();
        self.saved_state = Some(st);
    }

    /// Bring the saved screen back (see `model_restore`).
    fn restore_screen_state(&mut self)
        requires
            old(self).wf(),
        ensures
            final(self).wf(),
            final(self).model() == model_restore(old(self).model()),
    {
        if let Some(saved_state) = &self.saved_state {
            let mut i: usize = 0;
            while i < TERMINAL_WIDTH * TERMINAL_HEIGHT
                invariant
                    self.wf(),
                    self.saved_state == old(self).saved_state,
                    self.saved_state == Some(*saved_state),
                    i <= 1920,
                    self.screen.buffer@.len() == 1920,
                    forall|j: int| 0 <= j < i ==> self.screen.buffer@[j] == saved_state.buffer@[j],
                    self.screen.cursor_x == old(self).screen.cursor_x,
                    self.screen.cursor_y == old(self).screen.cursor_y,
                    self.screen.dirty == old(self).screen.dirty,
                    self.screen.keyboard_locked == old(self).screen.keyboard_locked,
                    self.cursor.x == old(self).cursor.x,
                    self.cursor.y == old(self).cursor.y,
                    self.sequence_number == old(self).sequence_number,
                    self.connected == old(self).connected,
                    self.input_buffer == old(self).input_buffer,
                    self.keyboard_state == old(self).keyboard_state,
                    self.device_id == old(self).device_id,
                    self.pending_responses == old(self).pending_responses,
                decreases 1920 - i,
            {
                self.screen.buffer.set(i, saved_state.buffer[i]);
                i = i + 1;
            }
            assert(self.screen.buffer@ =~= saved_state.buffer@);
            self.screen.cursor_x = saved_state.cursor_x;
            self.screen.cursor_y = saved_state.cursor_y;
            self.cursor.move_to(saved_state.cursor_x, saved_state.cursor_y);
            self.screen.dirty = true;
        }
    }

    /// Whether the data name a valid region (see `partial_region`), checked
    /// as the processor does: length, coordinates on the screen, order, and
    /// a region of at most 8192 cells.
    fn check_region(data: &[u8]) -> (r: bool)
        ensures
            r == partial_region(data@),
    {
        if data.len() < 4 || data.len() > 1024 {
            return false;
        }
        let start_row = data[0] as usize;
        let start_col = data[1] as usize;
        let end_row = data[2] as usize;
        let end_col = data[3] as usize;
        if start_row >= TERMINAL_HEIGHT || start_col >= TERMINAL_WIDTH || end_row >= TERMINAL_HEIGHT || end_col >= TERMINAL_WIDTH {
            return false;
        }
        if end_row < start_row || end_col < start_col {
            return false;
        }
        let region_width = end_col - start_col + 1;
        let region_height = end_row - start_row + 1;
        assert(region_width * region_height <= 1920) by (nonlinear_arith)
            requires
                region_width <= 80,
                region_height <= 24,
        ;
        if region_width > TERMINAL_WIDTH || region_height > TERMINAL_HEIGHT || region_width * region_height > 8192 {
            return false;
        }
        true
    }

    /// Save Partial: with a valid region the whole screen is saved (see
    /// `full_save`); otherwise nothing changes.
    fn save_partial_screen_state(&mut self, data: &[u8])
        requires
            old(self).wf(),
        ensures
            final(self).wf(),
            final(self).model() == if partial_region(data@) { full_save(old(self).model()) } else { old(self).model() },
    {
        if !Self::check_region(data) {
            return;
        }
        self.save_screen_state();
    }

    /// Restore Partial (see `model_restore_partial`).
    fn restore_partial_screen_state(&mut self, data: &[u8])
        requires
            old(self).wf(),
        ensures
            final(self).wf(),
            final(self).model() == model_restore_partial(old(self).model(), data@),
    {
        if data.len() < 4 || data.len() > 1024 {
            return;
        }
        if self.saved_state.is_none() {
            return;
        }
        if !Self::check_region(data) {
            return;
        }
        let start_row = data[0] as usize;
        let start_col = data[1] as usize;
        let end_row = data[2] as usize;
        let end_col = data[3] as usize;
        if let Some(saved_state) = &self.saved_state {
            let ghost before = self.screen.buffer@;
            let safe_end_row = if end_row + 1 < TERMINAL_HEIGHT { end_row + 1 } else { TERMINAL_HEIGHT };
            let safe_end_col = if end_col + 1 < TERMINAL_WIDTH { end_col + 1 } else { TERMINAL_WIDTH };
            let mut y = start_row;
            while y < safe_end_row
                invariant
                    self.wf(),
                    self.saved_state == old(self).saved_state,
                    self.saved_state == Some(*saved_state),
                    saved_state.buffer@.len() == 1920,
                    partial_region(data@),
                    start_row == data@[0] && start_col == data@[1],
                    safe_end_row == end_row + 1 && safe_end_col == end_col + 1,
                    end_row == data@[2] && end_col == data@[3],
                    start_row <= y <= safe_end_row,
                    before == old(self).screen.buffer@,
                    self.screen.buffer@.len() == 1920,
                    forall|j: int| 0 <= j < 1920 ==> #[trigger] self.screen.buffer@[j] == if in_region(data@, j) && j / 80 < y { saved_state.buffer@[j] } else { before[j] },
                    self.screen.cursor_x == old(self).screen.cursor_x,
                    self.screen.cursor_y == old(self).screen.cursor_y,
                    self.screen.dirty == old(self).screen.dirty,
                    self.screen.keyboard_locked == old(self).screen.keyboard_locked,
                    self.cursor.x == old(self).cursor.x,
                    self.cursor.y == old(self).cursor.y,
                    self.sequence_number == old(self).sequence_number,
                    self.connected == old(self).connected,
                    self.input_buffer == old(self).input_buffer,
                    self.keyboard_state == old(self).keyboard_state,
                    self.device_id == old(self).device_id,
                    self.pending_responses == old(self).pending_responses,
                decreases safe_end_row - y,
            {
                let mut x = start_col;
                while x < safe_end_col
                    invariant
                        self.wf(),
                        self.saved_state == old(self).saved_state,
                        self.saved_state == Some(*saved_state),
                        saved_state.buffer@.len() == 1920,
                        partial_region(data@),
                        start_row == data@[0] && start_col == data@[1],
                        safe_end_row == end_row + 1 && safe_end_col == end_col + 1,
                        end_row == data@[2] && end_col == data@[3],
                        start_row <= y < safe_end_row,
                        start_col <= x <= safe_end_col,
                        before == old(self).screen.buffer@,
                        self.screen.buffer@.len() == 1920,
                        forall|j: int| 0 <= j < 1920 ==> #[trigger] self.screen.buffer@[j] == if in_region(data@, j) && (j / 80 < y || (j / 80 == y && j % 80 < x)) { saved_state.buffer@[j] } else { before[j] },
                        self.screen.cursor_x == old(self).screen.cursor_x,
                        self.screen.cursor_y == old(self).screen.cursor_y,
                        self.screen.dirty == old(self).screen.dirty,
                        self.screen.keyboard_locked == old(self).screen.keyboard_locked,
                        self.cursor.x == old(self).cursor.x,
                        self.cursor.y == old(self).cursor.y,
                        self.sequence_number == old(self).sequence_number,
                        self.connected == old(self).connected,
                        self.input_buffer == old(self).input_buffer,
                        self.keyboard_state == old(self).keyboard_state,
                        self.device_id == old(self).device_id,
                        self.pending_responses == old(self).pending_responses,
                    decreases safe_end_col - x,
                {
                    let k = y * TERMINAL_WIDTH + x;
                    proof {
                        assert(k / 80 == y && k % 80 == x) by (nonlinear_arith)
                            requires k == y * 80 + x, x < 80;
                    }
                    self.screen.buffer.set(k, saved_state.buffer[k]);
                    x = x + 1;
                    proof {
                        assert forall|j: int| 0 <= j < 1920 implies #[trigger] self.screen.buffer@[j] == if in_region(data@, j) && (j / 80 < y || (j / 80 == y && j % 80 < x)) { saved_state.buffer@[j] } else { before[j] } by {
                            if j != k {
                                assert(j / 80 != y || j % 80 != x - 1) by (nonlinear_arith)
                                    requires j != k, k == y * 80 + (x - 1), 0 <= j;
                            }
                        }
                    }
                }
                y = y + 1;
            }
            self.screen.dirty = true;
            proof {
                let m = model_restore_partial(old(self).model(), data@);
                assert forall|j: int| 0 <= j < 1920 implies #[trigger] self.screen.buffer@[j] == m.cells[j] by {
                    if in_region(data@, j) {
                        assert(j / 80 <= end_row);
                    }
                }
                assert(self.screen.buffer@ =~= m.cells);
            }
        }
    }

    /// Cancel Invite: the pending replies are dropped.
    fn cancel_pending_operations(&mut self)
        requires
            old(self).wf(),
        ensures
            final(self).wf(),
            final(self).model() == (ProcessorModel { pending: 0, ..old(self).model() }),
    {
        self.pending_responses.clear();
    }

    /// Blank the screen and drop input, replies and the saved screen, with
    /// both cursors home and the keyboard state normal.
    fn reset_session(&mut self)
        requires
            old(self).wf(),
        ensures
            final(self).wf(),
            final(self).model() == (ProcessorModel {
                cells: blank_screen(),
                cursor: (0usize, 0usize),
                screen_cursor: (0usize, 0usize),
                dirty: true,
                input: Seq::empty(),
                keyboard: KeyboardState::Normal,
                saved: None,
                pending: 0,
                ..old(self).model()
            }),
    {
        self.screen.clear();
        self.cursor = CursorPosition::new();
        self.input_buffer.clear();
        self.keyboard_state = KeyboardState::Normal;
        self.pending_responses.clear();
        self.saved_state = None;
        assert(self.screen.buffer@ =~= blank_screen());
    }

    /// Connect: the session is reset (see `connected_model`) and the screen
    /// greets the host.
    pub fn connect(&mut self)
        requires
            old(self).wf(),
        ensures
            final(self).wf(),
            final(self).model() == connected_model(old(self).model(), true, CONNECTED_TEXT@),
    {
        self.connected = true;
        self.reset_session();
        self.screen.write_string(CONNECTED_TEXT);
    }

    /// Disconnect: the session is reset (see `connected_model`) and the
    /// screen says so.
    pub fn disconnect(&mut self)
        requires
            old(self).wf(),
        ensures
            final(self).wf(),
            final(self).model() == connected_model(old(self).model(), false, DISCONNECTED_TEXT@),
    {
        self.connected = false;
        self.reset_session();
        self.screen.write_string(DISCONNECTED_TEXT);
    }

    /// Whether the screen is to be redrawn.
    pub fn is_dirty(&self) -> (r: bool)
        ensures
            r == self.model().dirty,
    {
        self.screen.dirty
    }

    /// Mark the screen as drawn.
    pub fn mark_clean(&mut self)
        requires
            old(self).wf(),
        ensures
            final(self).wf(),
            final(self).model() == (ProcessorModel { dirty: false, ..old(self).model() }),
    {
        self.screen.dirty = false;
    }

    /// The processor's cursor as (column, row).
    pub fn get_cursor_position(&self) -> (r: (usize, usize))
        ensures
            r == self.model().cursor,
    {
        self.cursor.get_position()
    }

    /// The screen's characters in reading order, each cut to a byte,
    /// leaving out zero bytes and spaces.
    pub fn read_buffer(&self) -> (r: Vec<u8>)
        requires
            self.wf(),
        ensures
            r@ == nonblank_bytes(self.model().cells),
    {
        let mut buffer: Vec<u8> = Vec::new();
        let mut i: usize = 0;
        while i < TERMINAL_WIDTH * TERMINAL_HEIGHT
            invariant
                self.wf(),
                i <= 1920,
                buffer@ == nonblank_bytes(self.screen.buffer@.take(i as int)),
            decreases 1920 - i,
        {
            let code: u32 = self.screen.buffer[i].character as u32;
            let ch: u8 = #[verifier::truncate] (code as u8);
            if ch != 0 && ch != 0x20 {
                buffer.push(ch);
            }
            proof {
                assert(self.screen.buffer@.take(i + 1).drop_last() =~= self.screen.buffer@.take(i as int));
            }
            i = i + 1;
        }
        assert(self.screen.buffer@.take(1920) =~= self.screen.buffer@);
        buffer
    }

    /// Process a packet from the host (see `process_step`): the replies, or
    /// the error of a structured field.
    pub fn process_packet(&mut self, packet: &Packet) -> (r: Result<Vec<Packet>, String>)
        requires
            old(self).wf(),
        ensures
            final(self).wf(),
            final(self).model() == process_step(old(self).model(), packet.command, packet.data@).0,
            match process_step(old(self).model(), packet.command, packet.data@).1 {
                Ok(rs) => r matches Ok(v) && replies_of(v@) == rs,
                Err(e) => r matches Err(m) && m@ == e,
            },
    {
        let mut out: Vec<Packet> = Vec::new();
        match packet.command {
            CommandCode::WriteToDisplay => {
                self.process_write_to_display(packet.data.as_slice())?;
            },
            CommandCode::ReadBuffer => {
                out.push(self.create_read_buffer_response());
            },
            CommandCode::ReadModified => {
                out.push(self.create_read_modified_response());
            },
            CommandCode::ReadModifiedAll => {
                out.push(self.create_read_modified_all_response());
            },
            CommandCode::ReadImmediate => {
                out.push(self.create_read_immediate_response());
            },
            CommandCode::WriteToDisplayAndIdentify => {
                self.process_write_to_display(packet.data.as_slice())?;
                out.push(self.create_device_identification());
            },
            CommandCode::ReadBufferAndIdentify => {
                out.push(self.create_read_buffer_response());
                out.push(self.create_device_identification());
            },
            CommandCode::WriteStructuredField => {
                match self.process_structured_field(packet.data.as_slice()) {
                    Ok(()) => {},
                    Err(e) => {
                        return Err(e);
                    },
                }
            },
            CommandCode::ReadStructuredField => {
                out.push(self.create_read_structured_field_response());
            },
            CommandCode::TransferData => {
                self.process_transfer_data(packet.data.as_slice())?;
            },
            CommandCode::Save => {
                self.save_screen_state();
            },
            CommandCode::Restore => {
                self.restore_screen_state();
            },
            CommandCode::SavePartial => {
                self.save_partial_screen_state(packet.data.as_slice());
            },
            CommandCode::RestorePartial => {
                self.restore_partial_screen_state(packet.data.as_slice());
            },
            CommandCode::CancelInvite => {
                self.cancel_pending_operations();
            },
            CommandCode::ReadToMemory => {},
        }
        assert(replies_of(out@) =~= process_step(old(self).model(), packet.command, packet.data@).1->Ok_0);
        Ok(out)
    }
}

/// A Save followed by a Restore brings back the screen's cells and the
/// screen's cursor as they were at the Save, whatever the packets' data.
pub proof fn lemma_save_then_restore(m: ProcessorModel, d1: Seq<u8>, d2: Seq<u8>)
    ensures
        ({
            let after = process_step(process_step(m, CommandCode::Save, d1).0, CommandCode::Restore, d2).0;
            &&& after.cells == m.cells
            &&& after.screen_cursor == m.screen_cursor
            &&& after.dirty
        }),
{
}

} // verus!
