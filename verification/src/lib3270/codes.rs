//! TN3270 command codes, order codes, AID keys and attribute bits.

use vstd::prelude::*;

verus! {

// Command codes sent by the host.
pub const CMD_WRITE: u8 = 0x01;
pub const CMD_ERASE_WRITE: u8 = 0x05;
pub const CMD_ERASE_WRITE_ALTERNATE: u8 = 0x0D;
pub const CMD_READ_BUFFER: u8 = 0x02;
pub const CMD_READ_MODIFIED: u8 = 0x06;
pub const CMD_READ_MODIFIED_ALL: u8 = 0x0E;
pub const CMD_ERASE_ALL_UNPROTECTED: u8 = 0x0F;
pub const CMD_WRITE_STRUCTURED_FIELD: u8 = 0x11;

// Orders embedded in the data stream.
pub const ORDER_SF: u8 = 0x1D;
pub const ORDER_SFE: u8 = 0x29;
pub const ORDER_SBA: u8 = 0x11;
pub const ORDER_SA: u8 = 0x28;
pub const ORDER_MF: u8 = 0x2C;
pub const ORDER_IC: u8 = 0x13;
pub const ORDER_PT: u8 = 0x05;
pub const ORDER_RA: u8 = 0x3C;
pub const ORDER_EUA: u8 = 0x12;
pub const ORDER_GE: u8 = 0x08;

pub const WCC_RESET: u8 = 0x40;
pub const WCC_ALARM: u8 = 0x04;
pub const WCC_RESTORE: u8 = 0x02;
pub const WCC_RESET_MDT: u8 = 0x01;

// Attention identifiers sent from terminal to host.
pub const AID_NO_AID: u8 = 0x60;
pub const AID_ENTER: u8 = 0x7D;
pub const AID_CLEAR: u8 = 0x6D;
pub const AID_PA1: u8 = 0x6C;
pub const AID_PA2: u8 = 0x6E;
pub const AID_PA3: u8 = 0x6B;
pub const AID_PF1: u8 = 0xF1;
pub const AID_PF2: u8 = 0xF2;
pub const AID_PF3: u8 = 0xF3;
pub const AID_PF4: u8 = 0xF4;
pub const AID_PF5: u8 = 0xF5;
pub const AID_PF6: u8 = 0xF6;
pub const AID_PF7: u8 = 0xF7;
pub const AID_PF8: u8 = 0xF8;
pub const AID_PF9: u8 = 0xF9;
pub const AID_PF10: u8 = 0x7A;
pub const AID_PF11: u8 = 0x7B;
pub const AID_PF12: u8 = 0x7C;
pub const AID_PF13: u8 = 0xC1;
pub const AID_PF14: u8 = 0xC2;
pub const AID_PF15: u8 = 0xC3;
pub const AID_PF16: u8 = 0xC4;
pub const AID_PF17: u8 = 0xC5;
pub const AID_PF18: u8 = 0xC6;
pub const AID_PF19: u8 = 0xC7;
pub const AID_PF20: u8 = 0xC8;
pub const AID_PF21: u8 = 0xC9;
pub const AID_PF22: u8 = 0x4A;
pub const AID_PF23: u8 = 0x4B;
pub const AID_PF24: u8 = 0x4C;
pub const AID_STRUCTURED_FIELD: u8 = 0x88;
pub const AID_READ_PARTITION: u8 = 0x61;
pub const AID_TRIGGER: u8 = 0x7F;
pub const AID_SYSREQ: u8 = 0xF0;

// Field attribute byte bits used by the Start Field order.
pub const ATTR_PROTECTED: u8 = 0x20;
pub const ATTR_NUMERIC: u8 = 0x10;
pub const ATTR_DISPLAY: u8 = 0x0C;
pub const ATTR_RESERVED: u8 = 0x02;
pub const ATTR_MDT: u8 = 0x01;

// Display attribute values (bits 2-3 of the field attribute).
pub const DISPLAY_NORMAL: u8 = 0x00;
pub const DISPLAY_INTENSIFIED: u8 = 0x08;
pub const DISPLAY_HIDDEN: u8 = 0x0C;

// Extended field attribute types (Start Field Extended order).
pub const XA_ALL: u8 = 0x00;
pub const XA_3270: u8 = 0xC0;
pub const XA_VALIDATION: u8 = 0xC1;
pub const XA_OUTLINING: u8 = 0xC2;
pub const XA_HIGHLIGHTING: u8 = 0x41;
pub const XA_FOREGROUND: u8 = 0x42;
pub const XA_CHARSET: u8 = 0x43;
pub const XA_BACKGROUND: u8 = 0x45;
pub const XA_TRANSPARENCY: u8 = 0x46;

// Colour attribute values.
pub const COLOR_DEFAULT: u8 = 0x00;
pub const COLOR_BLUE: u8 = 0xF1;
pub const COLOR_RED: u8 = 0xF2;
pub const COLOR_PINK: u8 = 0xF3;
pub const COLOR_GREEN: u8 = 0xF4;
pub const COLOR_TURQUOISE: u8 = 0xF5;
pub const COLOR_YELLOW: u8 = 0xF6;
pub const COLOR_WHITE: u8 = 0xF7;
pub const COLOR_BLACK: u8 = 0xF8;
pub const COLOR_DEEP_BLUE: u8 = 0xF9;
pub const COLOR_ORANGE: u8 = 0xFA;
pub const COLOR_PURPLE: u8 = 0xFB;
pub const COLOR_PALE_GREEN: u8 = 0xFC;
pub const COLOR_PALE_TURQUOISE: u8 = 0xFD;
pub const COLOR_GREY: u8 = 0xFE;
pub const COLOR_NEUTRAL: u8 = 0xFF;

// Highlighting attribute values.
pub const HIGHLIGHT_DEFAULT: u8 = 0x00;
pub const HIGHLIGHT_NORMAL: u8 = 0xF0;
pub const HIGHLIGHT_BLINK: u8 = 0xF1;
pub const HIGHLIGHT_REVERSE: u8 = 0xF2;
pub const HIGHLIGHT_UNDERSCORE: u8 = 0xF4;

// Validation attribute values.
pub const VALIDATION_MANDATORY_FILL: u8 = 0x04;
pub const VALIDATION_MANDATORY_ENTRY: u8 = 0x02;
pub const VALIDATION_TRIGGER: u8 = 0x01;

// Structured field identifiers used by Write Structured Field.
pub const SF_QUERY_REPLY: u16 = 0x0081;
pub const SF_OUTBOUND_3270DS: u16 = 0x0040;

/// 3270 command codes.
#[derive(Debug, Clone, Copy, PartialEq, Eq, Structural)]
pub enum CommandCode {
    Write,
    EraseWrite,
    EraseWriteAlternate,
    ReadBuffer,
    ReadModified,
    ReadModifiedAll,
    EraseAllUnprotected,
    WriteStructuredField,
}

impl CommandCode {
    /// The wire byte of a command.
    pub open spec fn spec_byte(self) -> u8 {
        match self {
            CommandCode::Write => CMD_WRITE,
            CommandCode::EraseWrite => CMD_ERASE_WRITE,
            CommandCode::EraseWriteAlternate => CMD_ERASE_WRITE_ALTERNATE,
            CommandCode::ReadBuffer => CMD_READ_BUFFER,
            CommandCode::ReadModified => CMD_READ_MODIFIED,
            CommandCode::ReadModifiedAll => CMD_READ_MODIFIED_ALL,
            CommandCode::EraseAllUnprotected => CMD_ERASE_ALL_UNPROTECTED,
            CommandCode::WriteStructuredField => CMD_WRITE_STRUCTURED_FIELD,
        }
    }

    /// Decoding of a byte: the variant whose wire byte it is, if any.
    pub open spec fn spec_from_byte(value: u8) -> Option<Self> {
        if value == CMD_WRITE {
            Some(CommandCode::Write)
        } else if value == CMD_ERASE_WRITE {
            Some(CommandCode::EraseWrite)
        } else if value == CMD_ERASE_WRITE_ALTERNATE {
            Some(CommandCode::EraseWriteAlternate)
        } else if value == CMD_READ_BUFFER {
            Some(CommandCode::ReadBuffer)
        } else if value == CMD_READ_MODIFIED {
            Some(CommandCode::ReadModified)
        } else if value == CMD_READ_MODIFIED_ALL {
            Some(CommandCode::ReadModifiedAll)
        } else if value == CMD_ERASE_ALL_UNPROTECTED {
            Some(CommandCode::EraseAllUnprotected)
        } else if value == CMD_WRITE_STRUCTURED_FIELD {
            Some(CommandCode::WriteStructuredField)
        } else {
            None
        }
    }

    /// Convert a byte value to a `CommandCode`.
    pub fn from_u8(value: u8) -> (r: Option<Self>)
        ensures
            r == Self::spec_from_byte(value),
    {
        match value {
            CMD_WRITE => Some(Self::Write),
            CMD_ERASE_WRITE => Some(Self::EraseWrite),
            CMD_ERASE_WRITE_ALTERNATE => Some(Self::EraseWriteAlternate),
            CMD_READ_BUFFER => Some(Self::ReadBuffer),
            CMD_READ_MODIFIED => Some(Self::ReadModified),
            CMD_READ_MODIFIED_ALL => Some(Self::ReadModifiedAll),
            CMD_ERASE_ALL_UNPROTECTED => Some(Self::EraseAllUnprotected),
            CMD_WRITE_STRUCTURED_FIELD => Some(Self::WriteStructuredField),
            _ => None,
        }
    }

    /// Convert to the byte value.
    pub fn to_u8(self) -> (b: u8)
        ensures
            b == self.spec_byte(),
    {
        match self {
            CommandCode::Write => CMD_WRITE,
            CommandCode::EraseWrite => CMD_ERASE_WRITE,
            CommandCode::EraseWriteAlternate => CMD_ERASE_WRITE_ALTERNATE,
            CommandCode::ReadBuffer => CMD_READ_BUFFER,
            CommandCode::ReadModified => CMD_READ_MODIFIED,
            CommandCode::ReadModifiedAll => CMD_READ_MODIFIED_ALL,
            CommandCode::EraseAllUnprotected => CMD_ERASE_ALL_UNPROTECTED,
            CommandCode::WriteStructuredField => CMD_WRITE_STRUCTURED_FIELD,
        }
    }
}

/// 3270 order codes.
#[derive(Debug, Clone, Copy, PartialEq, Eq, Structural)]
pub enum OrderCode {
    StartField,
    StartFieldExtended,
    SetBufferAddress,
    SetAttribute,
    ModifyField,
    InsertCursor,
    ProgramTab,
    RepeatToAddress,
    EraseUnprotectedToAddress,
    GraphicEscape,
}

impl OrderCode {
    /// The wire byte of an order.
    pub open spec fn spec_byte(self) -> u8 {
        match self {
            OrderCode::StartField => ORDER_SF,
            OrderCode::StartFieldExtended => ORDER_SFE,
            OrderCode::SetBufferAddress => ORDER_SBA,
            OrderCode::SetAttribute => ORDER_SA,
            OrderCode::ModifyField => ORDER_MF,
            OrderCode::InsertCursor => ORDER_IC,
            OrderCode::ProgramTab => ORDER_PT,
            OrderCode::RepeatToAddress => ORDER_RA,
            OrderCode::EraseUnprotectedToAddress => ORDER_EUA,
            OrderCode::GraphicEscape => ORDER_GE,
        }
    }

    /// Decoding of a byte: the variant whose wire byte it is, if any.
    pub open spec fn spec_from_byte(value: u8) -> Option<Self> {
        if value == ORDER_SF {
            Some(OrderCode::StartField)
        } else if value == ORDER_SFE {
            Some(OrderCode::StartFieldExtended)
        } else if value == ORDER_SBA {
            Some(OrderCode::SetBufferAddress)
        } else if value == ORDER_SA {
            Some(OrderCode::SetAttribute)
        } else if value == ORDER_MF {
            Some(OrderCode::ModifyField)
        } else if value == ORDER_IC {
            Some(OrderCode::InsertCursor)
        } else if value == ORDER_PT {
            Some(OrderCode::ProgramTab)
        } else if value == ORDER_RA {
            Some(OrderCode::RepeatToAddress)
        } else if value == ORDER_EUA {
            Some(OrderCode::EraseUnprotectedToAddress)
        } else if value == ORDER_GE {
            Some(OrderCode::GraphicEscape)
        } else {
            None
        }
    }

    /// Convert a byte value to a `OrderCode`.
    pub fn from_u8(value: u8) -> (r: Option<Self>)
        ensures
            r == Self::spec_from_byte(value),
    {
        match value {
            ORDER_SF => Some(Self::StartField),
            ORDER_SFE => Some(Self::StartFieldExtended),
            ORDER_SBA => Some(Self::SetBufferAddress),
            ORDER_SA => Some(Self::SetAttribute),
            ORDER_MF => Some(Self::ModifyField),
            ORDER_IC => Some(Self::InsertCursor),
            ORDER_PT => Some(Self::ProgramTab),
            ORDER_RA => Some(Self::RepeatToAddress),
            ORDER_EUA => Some(Self::EraseUnprotectedToAddress),
            ORDER_GE => Some(Self::GraphicEscape),
            _ => None,
        }
    }

    /// Convert to the byte value.
    pub fn to_u8(self) -> (b: u8)
        ensures
            b == self.spec_byte(),
    {
        match self {
            OrderCode::StartField => ORDER_SF,
            OrderCode::StartFieldExtended => ORDER_SFE,
            OrderCode::SetBufferAddress => ORDER_SBA,
            OrderCode::SetAttribute => ORDER_SA,
            OrderCode::ModifyField => ORDER_MF,
            OrderCode::InsertCursor => ORDER_IC,
            OrderCode::ProgramTab => ORDER_PT,
            OrderCode::RepeatToAddress => ORDER_RA,
            OrderCode::EraseUnprotectedToAddress => ORDER_EUA,
            OrderCode::GraphicEscape => ORDER_GE,
        }
    }
}

/// Attention identifier keys.
#[derive(Debug, Clone, Copy, PartialEq, Eq, Structural)]
pub enum AidKey {
    NoAid,
    Enter,
    Clear,
    PA1,
    PA2,
    PA3,
    PF1,
    PF2,
    PF3,
    PF4,
    PF5,
    PF6,
    PF7,
    PF8,
    PF9,
    PF10,
    PF11,
    PF12,
    PF13,
    PF14,
    PF15,
    PF16,
    PF17,
    PF18,
    PF19,
    PF20,
    PF21,
    PF22,
    PF23,
    PF24,
    StructuredField,
    ReadPartition,
    Trigger,
    SysReq,
}

impl AidKey {
    /// The wire byte of an attention identifier.
    pub open spec fn spec_byte(self) -> u8 {
        match self {
            AidKey::NoAid => AID_NO_AID,
            AidKey::Enter => AID_ENTER,
            AidKey::Clear => AID_CLEAR,
            AidKey::PA1 => AID_PA1,
            AidKey::PA2 => AID_PA2,
            AidKey::PA3 => AID_PA3,
            AidKey::PF1 => AID_PF1,
            AidKey::PF2 => AID_PF2,
            AidKey::PF3 => AID_PF3,
            AidKey::PF4 => AID_PF4,
            AidKey::PF5 => AID_PF5,
            AidKey::PF6 => AID_PF6,
            AidKey::PF7 => AID_PF7,
            AidKey::PF8 => AID_PF8,
            AidKey::PF9 => AID_PF9,
            AidKey::PF10 => AID_PF10,
            AidKey::PF11 => AID_PF11,
            AidKey::PF12 => AID_PF12,
            AidKey::PF13 => AID_PF13,
            AidKey::PF14 => AID_PF14,
            AidKey::PF15 => AID_PF15,
            AidKey::PF16 => AID_PF16,
            AidKey::PF17 => AID_PF17,
            AidKey::PF18 => AID_PF18,
            AidKey::PF19 => AID_PF19,
            AidKey::PF20 => AID_PF20,
            AidKey::PF21 => AID_PF21,
            AidKey::PF22 => AID_PF22,
            AidKey::PF23 => AID_PF23,
            AidKey::PF24 => AID_PF24,
            AidKey::StructuredField => AID_STRUCTURED_FIELD,
            AidKey::ReadPartition => AID_READ_PARTITION,
            AidKey::Trigger => AID_TRIGGER,
            AidKey::SysReq => AID_SYSREQ,
        }
    }

    /// Decoding of a byte: the variant whose wire byte it is, if any.
    pub open spec fn spec_from_byte(value: u8) -> Option<Self> {
        if value == AID_NO_AID {
            Some(AidKey::NoAid)
        } else if value == AID_ENTER {
            Some(AidKey::Enter)
        } else if value == AID_CLEAR {
            Some(AidKey::Clear)
        } else if value == AID_PA1 {
            Some(AidKey::PA1)
        } else if value == AID_PA2 {
            Some(AidKey::PA2)
        } else if value == AID_PA3 {
            Some(AidKey::PA3)
        } else if value == AID_PF1 {
            Some(AidKey::PF1)
        } else if value == AID_PF2 {
            Some(AidKey::PF2)
        } else if value == AID_PF3 {
            Some(AidKey::PF3)
        } else if value == AID_PF4 {
            Some(AidKey::PF4)
        } else if value == AID_PF5 {
            Some(AidKey::PF5)
        } else if value == AID_PF6 {
            Some(AidKey::PF6)
        } else if value == AID_PF7 {
            Some(AidKey::PF7)
        } else if value == AID_PF8 {
            Some(AidKey::PF8)
        } else if value == AID_PF9 {
            Some(AidKey::PF9)
        } else if value == AID_PF10 {
            Some(AidKey::PF10)
        } else if value == AID_PF11 {
            Some(AidKey::PF11)
        } else if value == AID_PF12 {
            Some(AidKey::PF12)
        } else if value == AID_PF13 {
            Some(AidKey::PF13)
        } else if value == AID_PF14 {
            Some(AidKey::PF14)
        } else if value == AID_PF15 {
            Some(AidKey::PF15)
        } else if value == AID_PF16 {
            Some(AidKey::PF16)
        } else if value == AID_PF17 {
            Some(AidKey::PF17)
        } else if value == AID_PF18 {
            Some(AidKey::PF18)
        } else if value == AID_PF19 {
            Some(AidKey::PF19)
        } else if value == AID_PF20 {
            Some(AidKey::PF20)
        } else if value == AID_PF21 {
            Some(AidKey::PF21)
        } else if value == AID_PF22 {
            Some(AidKey::PF22)
        } else if value == AID_PF23 {
            Some(AidKey::PF23)
        } else if value == AID_PF24 {
            Some(AidKey::PF24)
        } else if value == AID_STRUCTURED_FIELD {
            Some(AidKey::StructuredField)
        } else if value == AID_READ_PARTITION {
            Some(AidKey::ReadPartition)
        } else if value == AID_TRIGGER {
            Some(AidKey::Trigger)
        } else if value == AID_SYSREQ {
            Some(AidKey::SysReq)
        } else {
            None
        }
    }

    /// Convert a byte value to a `AidKey`.
    pub fn from_u8(value: u8) -> (r: Option<Self>)
        ensures
            r == Self::spec_from_byte(value),
    {
        match value {
            AID_NO_AID => Some(Self::NoAid),
            AID_ENTER => Some(Self::Enter),
            AID_CLEAR => Some(Self::Clear),
            AID_PA1 => Some(Self::PA1),
            AID_PA2 => Some(Self::PA2),
            AID_PA3 => Some(Self::PA3),
            AID_PF1 => Some(Self::PF1),
            AID_PF2 => Some(Self::PF2),
            AID_PF3 => Some(Self::PF3),
            AID_PF4 => Some(Self::PF4),
            AID_PF5 => Some(Self::PF5),
            AID_PF6 => Some(Self::PF6),
            AID_PF7 => Some(Self::PF7),
            AID_PF8 => Some(Self::PF8),
            AID_PF9 => Some(Self::PF9),
            AID_PF10 => Some(Self::PF10),
            AID_PF11 => Some(Self::PF11),
            AID_PF12 => Some(Self::PF12),
            AID_PF13 => Some(Self::PF13),
            AID_PF14 => Some(Self::PF14),
            AID_PF15 => Some(Self::PF15),
            AID_PF16 => Some(Self::PF16),
            AID_PF17 => Some(Self::PF17),
            AID_PF18 => Some(Self::PF18),
            AID_PF19 => Some(Self::PF19),
            AID_PF20 => Some(Self::PF20),
            AID_PF21 => Some(Self::PF21),
            AID_PF22 => Some(Self::PF22),
            AID_PF23 => Some(Self::PF23),
            AID_PF24 => Some(Self::PF24),
            AID_STRUCTURED_FIELD => Some(Self::StructuredField),
            AID_READ_PARTITION => Some(Self::ReadPartition),
            AID_TRIGGER => Some(Self::Trigger),
            AID_SYSREQ => Some(Self::SysReq),
            _ => None,
        }
    }

    /// Convert to the byte value.
    pub fn to_u8(self) -> (b: u8)
        ensures
            b == self.spec_byte(),
    {
        match self {
            AidKey::NoAid => AID_NO_AID,
            AidKey::Enter => AID_ENTER,
            AidKey::Clear => AID_CLEAR,
            AidKey::PA1 => AID_PA1,
            AidKey::PA2 => AID_PA2,
            AidKey::PA3 => AID_PA3,
            AidKey::PF1 => AID_PF1,
            AidKey::PF2 => AID_PF2,
            AidKey::PF3 => AID_PF3,
            AidKey::PF4 => AID_PF4,
            AidKey::PF5 => AID_PF5,
            AidKey::PF6 => AID_PF6,
            AidKey::PF7 => AID_PF7,
            AidKey::PF8 => AID_PF8,
            AidKey::PF9 => AID_PF9,
            AidKey::PF10 => AID_PF10,
            AidKey::PF11 => AID_PF11,
            AidKey::PF12 => AID_PF12,
            AidKey::PF13 => AID_PF13,
            AidKey::PF14 => AID_PF14,
            AidKey::PF15 => AID_PF15,
            AidKey::PF16 => AID_PF16,
            AidKey::PF17 => AID_PF17,
            AidKey::PF18 => AID_PF18,
            AidKey::PF19 => AID_PF19,
            AidKey::PF20 => AID_PF20,
            AidKey::PF21 => AID_PF21,
            AidKey::PF22 => AID_PF22,
            AidKey::PF23 => AID_PF23,
            AidKey::PF24 => AID_PF24,
            AidKey::StructuredField => AID_STRUCTURED_FIELD,
            AidKey::ReadPartition => AID_READ_PARTITION,
            AidKey::Trigger => AID_TRIGGER,
            AidKey::SysReq => AID_SYSREQ,
        }
    }
}

/// Decoding the wire byte of any command code gives that command back,
/// and any byte that decodes to a command is that command's wire byte.
pub proof fn lemma_command_code_roundtrip(c: CommandCode, value: u8)
    ensures
        CommandCode::spec_from_byte(c.spec_byte()) == Some(c),
        CommandCode::spec_from_byte(value) matches Some(d) ==> d.spec_byte() == value,
{
}

/// Decoding the wire byte of any order code gives that order back,
/// and any byte that decodes to an order is that order's wire byte.
pub proof fn lemma_order_code_roundtrip(o: OrderCode, value: u8)
    ensures
        OrderCode::spec_from_byte(o.spec_byte()) == Some(o),
        OrderCode::spec_from_byte(value) matches Some(d) ==> d.spec_byte() == value,
{
}

/// Decoding the wire byte of any attention key gives that key back,
/// and any byte that decodes to a key is that key's wire byte.
pub proof fn lemma_aid_key_roundtrip(k: AidKey, value: u8)
    ensures
        AidKey::spec_from_byte(k.spec_byte()) == Some(k),
        AidKey::spec_from_byte(value) matches Some(d) ==> d.spec_byte() == value,
{
}

} // verus!
