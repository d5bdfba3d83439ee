//! 3270 data stream processing: commands, orders and structured fields
//! applied to a display, and the replies sent back to the host.

use vstd::prelude::*;
use crate::lib3270::codes::{
    AidKey, CommandCode, OrderCode, ORDER_SBA, WCC_ALARM, WCC_RESET, WCC_RESET_MDT,
    WCC_RESTORE, XA_3270, XA_BACKGROUND, XA_CHARSET, XA_FOREGROUND, XA_HIGHLIGHTING,
    XA_OUTLINING, XA_TRANSPARENCY, XA_VALIDATION, SF_QUERY_REPLY, SF_OUTBOUND_3270DS,
};
use crate::lib3270::display::{Display3270, DisplayCell, DisplayState, ScreenSize, fresh_state, lemma_ops_keep_ranges, ranges_fit, lemma_buffer_size_bounds, lemma_ops_keep_extents};
use crate::lib3270::display::addressing::{
    decode_12bit_address, decode_14bit_address, encode_12bit_address, encode_14bit_address,
    spec_decode_address_byte, spec_encode_address_byte,
};
use crate::lib3270::field::{ExtendedAttributes, FieldAttribute, FieldManager, sort_by_address};
use crate::ebcdic::{ascii_to_ebcdic, ebcdic_to_ascii, spec_ascii_to_ebcdic, spec_ebcdic_to_ascii};
use crate::protocol_common::TerminalProtocol;
use crate::text::{is_blank, text_is_blank, string_push, hex_byte_seq, hex_byte_string, str_to_string, string_concat};

verus! {

/// What the processor is waiting to send.
#[derive(Debug, Clone, Copy, PartialEq, Eq, Structural)]
pub enum ProcessorState {
    Ready,
    Processing,
    PendingReadBuffer,
    PendingReadModified,
    PendingReadModifiedAll,
}

/// The buffer address carried by two bytes.
pub open spec fn spec_decode_address(b1: u8, b2: u8, use14: bool) -> u16 {
    if use14 {
        ((b1 % 64) as int * 256 + b2) as u16
    } else {
        (spec_decode_address_byte(b1) * 64 + spec_decode_address_byte(b2)) as u16
    }
}

/// The two bytes carrying a buffer address.
pub open spec fn spec_encode_address(address: u16, use14: bool) -> (u8, u8) {
    if use14 {
        (((address / 256) % 64) as u8, (address % 256) as u8)
    } else {
        (
            spec_encode_address_byte(((address / 64) % 64) as u8),
            spec_encode_address_byte((address % 64) as u8),
        )
    }
}

/// The extended attributes given by the first `k` (type, value) pairs that
/// start at `base`.
pub open spec fn sfe_ext(data: Seq<u8>, base: int, k: nat) -> ExtendedAttributes
    decreases k,
{
    if k == 0 {
        ExtendedAttributes::spec_empty()
    } else {
        sfe_ext(data, base, (k - 1) as nat).spec_apply_pair(
            data[base + 2 * (k - 1)],
            data[base + 2 * (k - 1) + 1],
        )
    }
}

/// The base attribute given by the last 3270-attribute pair among the first
/// `k` pairs that start at `base` (zero when there is none).
pub open spec fn sfe_base(data: Seq<u8>, base: int, k: nat) -> u8
    decreases k,
{
    if k == 0 {
        0
    } else if data[base + 2 * (k - 1)] == XA_3270 {
        data[base + 2 * (k - 1) + 1]
    } else {
        sfe_base(data, base, (k - 1) as nat)
    }
}

/// A display with its keyboard lock set or cleared.
pub open spec fn with_lock(st: DisplayState, locked: bool) -> DisplayState {
    DisplayState { locked, ..st }
}

/// The effect of a Write Control Character after the optional erase.
pub open spec fn apply_wcc(st: DisplayState, wcc: u8, erase: bool) -> DisplayState {
    let s1 = if erase { st.clear() } else { st };
    let s2 = if wcc & WCC_RESET != 0 { s1.reset_mdt() } else { s1 };
    let s3 = if wcc & WCC_ALARM != 0 { DisplayState { alarm: true, ..s2 } } else { s2 };
    let s4 = if wcc & WCC_RESTORE != 0 { with_lock(s3, false) } else { s3 };
    if wcc & WCC_RESET_MDT != 0 { s4.reset_mdt() } else { s4 }
}

/// The outcome of one parsing step: the display afterwards, and either the
/// next position in the data or an error message.
pub type Outcome = (DisplayState, Result<int, Seq<char>>);

/// Read a buffer address at `pos`.
pub open spec fn spec_read_address(data: Seq<u8>, pos: int, use14: bool) -> Result<(int, u16), Seq<char>> {
    if pos + 1 >= data.len() {
        Err("Insufficient data for buffer address"@)
    } else {
        Ok((pos + 2, spec_decode_address(data[pos], data[pos + 1], use14)))
    }
}

/// Apply one order whose parameters start at `pos`.
pub open spec fn spec_order(order: OrderCode, data: Seq<u8>, pos: int, st: DisplayState, use14: bool) -> Outcome {
    let cur = st.cursor;
    match order {
        OrderCode::StartField => {
            if pos >= data.len() {
                (st, Err("Missing field attribute byte"@))
            } else {
                let attr = FieldAttribute { address: cur, base_attr: data[pos], extended_attrs: ExtendedAttributes::spec_empty(), length: 0 };
                (st.set_field_attribute(cur, attr).set_cursor((cur + 1) as u16), Ok(pos + 1))
            }
        },
        OrderCode::StartFieldExtended => {
            if pos >= data.len() {
                (st, Err("Missing SFE count byte"@))
            } else if pos + 1 + 2 * (data[pos] as int) > data.len() {
                (st, Err("Insufficient data for SFE attributes"@))
            } else {
                let count = data[pos] as nat;
                let attr = FieldAttribute {
                    address: cur,
                    base_attr: sfe_base(data, pos + 1, count),
                    extended_attrs: sfe_ext(data, pos + 1, count),
                    length: 0,
                };
                (st.set_field_attribute(cur, attr).set_cursor((cur + 1) as u16), Ok(pos + 1 + 2 * count))
            }
        },
        OrderCode::SetBufferAddress => {
            match spec_read_address(data, pos, use14) {
                Ok((p, a)) => (st.set_cursor(a), Ok(p)),
                Err(e) => (st, Err(e)),
            }
        },
        OrderCode::SetAttribute => {
            if pos + 1 >= data.len() {
                (st, Err("Insufficient data for SA order"@))
            } else {
                (st, Ok(pos + 2))
            }
        },
        OrderCode::ModifyField => {
            if pos >= data.len() {
                (st, Err("Missing MF count byte"@))
            } else if pos + 1 + 2 * (data[pos] as int) > data.len() {
                (st, Err("Insufficient data for MF attributes"@))
            } else {
                (st, Ok(pos + 1 + 2 * (data[pos] as int)))
            }
        },
        OrderCode::InsertCursor => (st, Ok(pos)),
        OrderCode::ProgramTab => (st.tab(), Ok(pos)),
        OrderCode::RepeatToAddress => {
            match spec_read_address(data, pos, use14) {
                Ok((p, a)) => {
                    if p >= data.len() {
                        (st, Err("Missing character for RA order"@))
                    } else {
                        (st.repeat_to_address(data[p], a), Ok(p + 1))
                    }
                },
                Err(e) => (st, Err(e)),
            }
        },
        OrderCode::EraseUnprotectedToAddress => {
            match spec_read_address(data, pos, use14) {
                Ok((p, a)) => (st.erase_unprotected_to_address(a), Ok(p)),
                Err(e) => (st, Err(e)),
            }
        },
        OrderCode::GraphicEscape => {
            if pos >= data.len() {
                (st, Err("Missing character for GE order"@))
            } else {
                (st.write_char(data[pos]), Ok(pos + 1))
            }
        },
    }
}

/// Orders never move backwards through the data.
pub proof fn lemma_order_advances(order: OrderCode, data: Seq<u8>, pos: int, st: DisplayState, use14: bool)
    requires
        pos <= data.len(),
    ensures
        spec_order(order, data, pos, st, use14).1 matches Ok(p) ==> pos <= p <= data.len(),
{
}

/// Process orders and data characters from `pos` to the end of the data.
pub open spec fn spec_write_orders(data: Seq<u8>, pos: int, st: DisplayState, use14: bool) -> Outcome
    decreases data.len() - pos,
{
    if pos < 0 || pos >= data.len() {
        (st, Ok(pos))
    } else {
        let byte = data[pos];
        match OrderCode::spec_from_byte(byte) {
            Some(order) => {
                let (st2, r) = spec_order(order, data, pos + 1, st, use14);
                match r {
                    Ok(p) => {
                        proof {
                            lemma_order_advances(order, data, pos + 1, st, use14);
                        }
                        spec_write_orders(data, p, st2, use14)
                    },
                    Err(e) => (st2, Err(e)),
                }
            },
            None => spec_write_orders(data, pos + 1, st.write_char(byte), use14),
        }
    }
}

/// Write, Erase/Write or Erase/Write Alternate whose WCC is at `pos`: the
/// keyboard locks, the WCC is applied, then orders and data follow.
pub open spec fn spec_write(data: Seq<u8>, pos: int, st: DisplayState, erase: bool, use14: bool) -> Outcome {
    let locked = with_lock(st, true);
    if pos >= data.len() {
        (locked, Err("Missing WCC byte"@))
    } else {
        spec_write_orders(data, pos + 1, apply_wcc(locked, data[pos], erase), use14)
    }
}

/// The structured fields of a Write Structured Field command, from `pos` to
/// the end of the data: each is a two-byte length (at least four), a
/// two-byte type and its content. Their content does not change the display.
pub open spec fn spec_structured_fields(data: Seq<u8>, pos: int) -> Result<int, Seq<char>>
    decreases data.len() - pos,
{
    if pos < 0 || pos >= data.len() {
        Ok(pos)
    } else if pos + 2 > data.len() {
        Err("Insufficient data for structured field length"@)
    } else {
        let length = data[pos] as int * 256 + data[pos + 1] as int;
        if length < 4 {
            Err("Invalid structured field length"@)
        } else if pos + 4 > data.len() {
            Err("Insufficient data for structured field type"@)
        } else if pos + 4 + (length - 4) > data.len() {
            Err("Insufficient data for structured field content"@)
        } else {
            spec_structured_fields(data, pos + length)
        }
    }
}

/// The display after Erase All Unprotected.
pub open spec fn spec_erase_all_unprotected(st: DisplayState) -> DisplayState {
    with_lock(st.clear_unprotected(), false)
}

/// Apply one command whose parameters start at `pos`; the result also says
/// which read reply, if any, the command asks for.
pub open spec fn spec_command(command: CommandCode, data: Seq<u8>, pos: int, st: DisplayState, use14: bool) -> (DisplayState, Result<(int, Option<ProcessorState>), Seq<char>>) {
    let with_none = |o: Outcome| (o.0, match o.1 { Ok(p) => Ok((p, None)), Err(e) => Err(e) });
    match command {
        CommandCode::Write => with_none(spec_write(data, pos, st, false, use14)),
        CommandCode::EraseWrite => with_none(spec_write(data, pos, st, true, use14)),
        CommandCode::EraseWriteAlternate => with_none(spec_write(data, pos, st, true, use14)),
        CommandCode::ReadBuffer => (st, Ok((pos, Some(ProcessorState::PendingReadBuffer)))),
        CommandCode::ReadModified => (st, Ok((pos, Some(ProcessorState::PendingReadModified)))),
        CommandCode::ReadModifiedAll => (st, Ok((pos, Some(ProcessorState::PendingReadModifiedAll)))),
        CommandCode::EraseAllUnprotected => (spec_erase_all_unprotected(st), Ok((pos, None))),
        CommandCode::WriteStructuredField => match spec_structured_fields(data, pos) {
            Ok(p) => (st, Ok((p, None))),
            Err(e) => (st, Err(e)),
        },
    }
}

/// Commands never move backwards through the data.
pub proof fn lemma_command_advances(command: CommandCode, data: Seq<u8>, pos: int, st: DisplayState, use14: bool)
    requires
        0 <= pos <= data.len(),
    ensures
        spec_command(command, data, pos, st, use14).1 matches Ok((p, _)) ==> pos <= p <= data.len(),
{
    match command {
        CommandCode::Write | CommandCode::EraseWrite | CommandCode::EraseWriteAlternate => {
            if pos < data.len() {
                let s = apply_wcc(with_lock(st, true), data[pos], true);
                lemma_write_orders_advances(data, pos + 1, s, use14);
                let s2 = apply_wcc(with_lock(st, true), data[pos], false);
                lemma_write_orders_advances(data, pos + 1, s2, use14);
            }
        },
        CommandCode::WriteStructuredField => {
            lemma_structured_fields_advance(data, pos);
        },
        _ => {},
    }
}

/// The orders of a Write end at or after where they start, inside the data.
pub proof fn lemma_write_orders_advances(data: Seq<u8>, pos: int, st: DisplayState, use14: bool)
    requires
        0 <= pos <= data.len(),
    ensures
        spec_write_orders(data, pos, st, use14).1 matches Ok(p) ==> pos <= p <= data.len(),
    decreases data.len() - pos,
{
    if 0 <= pos < data.len() {
        let byte = data[pos];
        match OrderCode::spec_from_byte(byte) {
            Some(order) => {
                lemma_order_advances(order, data, pos + 1, st, use14);
                let (st2, r) = spec_order(order, data, pos + 1, st, use14);
                if let Ok(p) = r {
                    lemma_write_orders_advances(data, p, st2, use14);
                }
            },
            None => {
                lemma_write_orders_advances(data, pos + 1, st.write_char(byte), use14);
            },
        }
    }
}

/// Structured fields end at or after where they start, inside the data.
pub proof fn lemma_structured_fields_advance(data: Seq<u8>, pos: int)
    requires
        0 <= pos <= data.len(),
    ensures
        spec_structured_fields(data, pos) matches Ok(p) ==> pos <= p <= data.len(),
    decreases data.len() - pos,
{
    if 0 <= pos < data.len() && pos + 2 <= data.len() {
        let length = data[pos] as int * 256 + data[pos + 1] as int;
        if length >= 4 && pos + length <= data.len() {
            lemma_structured_fields_advance(data, pos + length);
        }
    }
}

/// The error text for a byte that is not a command code.
pub open spec fn unknown_command_message(b: u8) -> Seq<char> {
    "Unknown command code: 0x"@ + hex_byte_seq(b)
}

/// Process commands from `pos` to the end of the data, remembering the last
/// read reply asked for.
pub open spec fn spec_parse(data: Seq<u8>, pos: int, st: DisplayState, pending: Option<ProcessorState>, use14: bool) -> (DisplayState, Result<Option<ProcessorState>, Seq<char>>)
    decreases data.len() - pos,
{
    if pos < 0 || pos >= data.len() {
        (st, Ok(pending))
    } else {
        let b = data[pos];
        match CommandCode::spec_from_byte(b) {
            Some(command) => {
                let (st2, r) = spec_command(command, data, pos + 1, st, use14);
                match r {
                    Ok((p, req)) => {
                        proof {
                            lemma_command_advances(command, data, pos + 1, st, use14);
                            assert(pos + 1 <= p <= data.len());
                        }
                        spec_parse(data, p, st2, if req is Some { req } else { pending }, use14)
                    },
                    Err(e) => (st2, Err(e)),
                }
            },
            None => (st, Err(unknown_command_message(b))),
        }
    }
}

/// Whether a step's result agrees with its specified outcome: success at the
/// given position, or failure with the given message.
pub open spec fn step_result(r: Result<(), String>, pos: usize, o: Result<int, Seq<char>>) -> bool {
    match o {
        Ok(p) => r is Ok && pos as int == p,
        Err(e) => r matches Err(m) && m@ == e,
    }
}

/// Whether a command's result agrees with its specified outcome: the read
/// reply asked for at the given position, or failure with the message.
pub open spec fn command_result(
    r: Result<Option<ProcessorState>, String>,
    pos: usize,
    o: Result<(int, Option<ProcessorState>), Seq<char>>,
) -> bool {
    match o {
        Ok((p, req)) => r == Ok::<Option<ProcessorState>, String>(req) && pos as int == p,
        Err(e) => r matches Err(m) && m@ == e,
    }
}

/// Clear the Modified Data Tag of every field of a display.
fn reset_all_mdt(display: &mut Display3270)
    requires
        old(display).wf(),
        old(display).field_extents_fit(),
    ensures
        final(display).state() == old(display).state().reset_mdt(),
        final(display).wf(),
        final(display).field_extents_fit(),
        ranges_fit(old(display).fields()) ==> ranges_fit(final(display).fields()),
{
    proof {
        lemma_ops_keep_extents(display.state(), 0, 0, FieldAttribute { address: 0, base_attr: 0, extended_attrs: ExtendedAttributes::spec_empty(), length: 0 });
            lemma_ops_keep_ranges(display.state(), 0, 0, FieldAttribute { address: 0, base_attr: 0, extended_attrs: ExtendedAttributes::spec_empty(), length: 0 });
    }
    display.field_manager_mut().reset_mdt();
    assert(display.fields() =~= old(display).state().reset_mdt().fields);
}

/// Reads commands, orders and data from a byte stream and applies them to a
/// display.
struct DataStreamParser<'a> {
    data: &'a [u8],
    pos: usize,
    use_14bit_addressing: bool,
}

impl<'a> DataStreamParser<'a> {
    /// The parser may go on: its position is inside the data and the display
    /// is well formed.
    spec fn ready(&self, display: &Display3270) -> bool {
        &&& self.pos <= self.data@.len()
        &&& display.wf()
        &&& display.field_extents_fit()
    }

    /// The data and the addressing mode stay as they were.
    spec fn same_stream(&self, other: &Self) -> bool {
        &&& other.data@ == self.data@
        &&& other.use_14bit_addressing == self.use_14bit_addressing
    }

    /// The display and position after a step agree with its specified
    /// outcome.
    spec fn reached(&self, before: &Display3270, after: &Self, display: &Display3270, o: Outcome, r: Result<(), String>) -> bool {
        &&& self.same_stream(after)
        &&& (ranges_fit(before.fields()) ==> ranges_fit(display.fields()))
        &&& display.wf()
        &&& display.field_extents_fit()
        &&& display.state() == o.0
        &&& step_result(r, after.pos, o.1)
        &&& (r is Ok ==> after.pos <= after.data@.len())
    }

    /// The display and position after an order agree with `spec_order`.
    spec fn order_done(&self, order: OrderCode, before: &Display3270, after: &Self, display: &Display3270, r: Result<(), String>) -> bool {
        self.reached(before, after, display, spec_order(order, self.data@, self.pos as int, before.state(), self.use_14bit_addressing), r)
    }

    fn new(data: &'a [u8], use_14bit_addressing: bool) -> (r: Self)
        ensures
            r.data@ == data@,
            r.pos == 0,
            r.use_14bit_addressing == use_14bit_addressing,
    {
        DataStreamParser { data, pos: 0, use_14bit_addressing }
    }

    /// Read a buffer address (12-bit or 14-bit) at the current position.
    fn read_buffer_address(&mut self) -> (r: Result<u16, String>)
        requires
            old(self).pos <= old(self).data@.len(),
        ensures
            old(self).same_stream(final(self)),
            match spec_read_address(old(self).data@, old(self).pos as int, old(self).use_14bit_addressing) {
                Ok((p, a)) => r == Ok::<u16, String>(a) && final(self).pos == p,
                Err(e) => r matches Err(m) && m@ == e,
            },
    {
        if self.data.len() - self.pos < 2 {
            return Err(str_to_string("Insufficient data for buffer address"));
        }
        let byte1 = self.data[self.pos];
        let byte2 = self.data[self.pos + 1];
        self.pos = self.pos + 2;
        let address = if self.use_14bit_addressing {
            decode_14bit_address(byte1, byte2)
        } else {
            decode_12bit_address(byte1, byte2)
        };
        Ok(address)
    }

    /// Start Field: a field with the next byte as attribute at the cursor;
    /// the cursor moves past it.
    fn process_start_field(&mut self, display: &mut Display3270) -> (r: Result<(), String>)
        requires
            old(self).ready(old(display)),
        ensures
            old(self).order_done(OrderCode::StartField, old(display), final(self), final(display), r),
    {
        if self.pos >= self.data.len() {
            return Err(str_to_string("Missing field attribute byte"));
        }
        let attr_byte = self.data[self.pos];
        self.pos = self.pos + 1;
        let current_addr = display.cursor_address();
        let field_attr = FieldAttribute::new(current_addr, attr_byte);
        proof {
            lemma_buffer_size_bounds(display.size());
            lemma_ops_keep_extents(display.state(), 0, current_addr, field_attr);
            lemma_ops_keep_ranges(display.state(), 0, current_addr, field_attr);
        }
        display.set_field_attribute(current_addr, field_attr);
        proof {
            lemma_buffer_size_bounds(display.size());
        }
        display.set_cursor(current_addr + 1);
        Ok(())
    }

    /// Start Field Extended: a count byte, then that many (type, value)
    /// pairs; the 3270 attribute pair gives the base attribute and the
    /// others the extended attributes.
    fn process_start_field_extended(&mut self, display: &mut Display3270) -> (r: Result<(), String>)
        requires
            old(self).ready(old(display)),
        ensures
            old(self).order_done(OrderCode::StartFieldExtended, old(display), final(self), final(display), r),
    {
        if self.pos >= self.data.len() {
            return Err(str_to_string("Missing SFE count byte"));
        }
        let count = self.data[self.pos] as usize;
        self.pos = self.pos + 1;
        if count * 2 > self.data.len() - self.pos {
            return Err(str_to_string("Insufficient data for SFE attributes"));
        }
        let ghost start = self.pos as int;
        let mut base_attr: u8 = 0;
        let mut extended_attrs = ExtendedAttributes::new();
        let mut k: usize = 0;
        while k < count
            invariant
                self.data@ == old(self).data@,
                self.use_14bit_addressing == old(self).use_14bit_addressing,
                start == old(self).pos + 1,
                start + 2 * count <= self.data@.len(),
                k <= count,
                self.pos == start + 2 * k,
                base_attr == sfe_base(self.data@, start, k as nat),
                extended_attrs == sfe_ext(self.data@, start, k as nat),
            decreases count - k,
        {
            let attr_type = self.data[self.pos];
            let attr_value = self.data[self.pos + 1];
            self.pos = self.pos + 2;
            if attr_type == XA_3270 {
                base_attr = attr_value;
            } else {
                extended_attrs = extended_attrs.apply_pair(attr_type, attr_value);
            }
            k = k + 1;
        }
        let current_addr = display.cursor_address();
        let field_attr = FieldAttribute::new_extended(current_addr, base_attr, extended_attrs);
        proof {
            lemma_buffer_size_bounds(display.size());
            lemma_ops_keep_extents(display.state(), 0, current_addr, field_attr);
            lemma_ops_keep_ranges(display.state(), 0, current_addr, field_attr);
        }
        display.set_field_attribute(current_addr, field_attr);
        proof {
            lemma_buffer_size_bounds(display.size());
        }
        display.set_cursor(current_addr + 1);
        Ok(())
    }

    /// Set Buffer Address: move the cursor to the address that follows.
    fn process_set_buffer_address(&mut self, display: &mut Display3270) -> (r: Result<(), String>)
        requires
            old(self).ready(old(display)),
        ensures
            old(self).order_done(OrderCode::SetBufferAddress, old(display), final(self), final(display), r),
    {
        match self.read_buffer_address() {
            Ok(address) => {
                display.set_cursor(address);
                Ok(())
            },
            Err(e) => Err(e),
        }
    }

    /// Set Attribute: a (type, value) pair that is read and not applied.
    fn process_set_attribute(&mut self, _display: &mut Display3270) -> (r: Result<(), String>)
        requires
            old(self).ready(old(_display)),
        ensures
            old(self).order_done(OrderCode::SetAttribute, old(_display), final(self), final(_display), r),
    {
        if self.data.len() - self.pos < 2 {
            return Err(str_to_string("Insufficient data for SA order"));
        }
        let _attr_type = self.data[self.pos];
        let _attr_value = self.data[self.pos + 1];
        self.pos = self.pos + 2;
        Ok(())
    }

    /// Modify Field: a count byte and that many (type, value) pairs, read and
    /// not applied.
    fn process_modify_field(&mut self, _display: &mut Display3270) -> (r: Result<(), String>)
        requires
            old(self).ready(old(_display)),
        ensures
            old(self).order_done(OrderCode::ModifyField, old(_display), final(self), final(_display), r),
    {
        if self.pos >= self.data.len() {
            return Err(str_to_string("Missing MF count byte"));
        }
        let count = self.data[self.pos] as usize;
        self.pos = self.pos + 1;
        if count * 2 > self.data.len() - self.pos {
            return Err(str_to_string("Insufficient data for MF attributes"));
        }
        self.pos = self.pos + count * 2;
        Ok(())
    }

    /// Insert Cursor: the cursor already stands where the order was met.
    fn process_insert_cursor(&mut self, _display: &mut Display3270) -> (r: Result<(), String>)
        requires
            old(self).ready(old(_display)),
        ensures
            old(self).order_done(OrderCode::InsertCursor, old(_display), final(self), final(_display), r),
    {
        Ok(())
    }

    /// Program Tab: move to the next unprotected field; without one the
    /// cursor stays.
    fn process_program_tab(&mut self, display: &mut Display3270) -> (r: Result<(), String>)
        requires
            old(self).ready(old(display)),
        ensures
            old(self).order_done(OrderCode::ProgramTab, old(display), final(self), final(display), r),
    {
        let _found = display.tab_to_next_field();
        Ok(())
    }

    /// Repeat to Address: an address and a character, repeated from the
    /// cursor through that address.
    fn process_repeat_to_address(&mut self, display: &mut Display3270) -> (r: Result<(), String>)
        requires
            old(self).ready(old(display)),
        ensures
            old(self).order_done(OrderCode::RepeatToAddress, old(display), final(self), final(display), r),
    {
        let target_address = match self.read_buffer_address() {
            Ok(a) => a,
            Err(e) => {
                return Err(e);
            },
        };
        if self.pos >= self.data.len() {
            return Err(str_to_string("Missing character for RA order"));
        }
        let ch = self.data[self.pos];
        self.pos = self.pos + 1;
        display.repeat_to_address(ch, target_address);
        Ok(())
    }

    /// Erase Unprotected to Address: null the non-attribute cells from the
    /// cursor through the address that follows.
    fn process_erase_unprotected_to_address(&mut self, display: &mut Display3270) -> (r: Result<(), String>)
        requires
            old(self).ready(old(display)),
        ensures
            old(self).order_done(OrderCode::EraseUnprotectedToAddress, old(display), final(self), final(display), r),
    {
        match self.read_buffer_address() {
            Ok(target_address) => {
                display.erase_unprotected_to_address(target_address);
                Ok(())
            },
            Err(e) => Err(e),
        }
    }

    /// Graphic Escape: the next byte is written as a character.
    fn process_graphic_escape(&mut self, display: &mut Display3270) -> (r: Result<(), String>)
        requires
            old(self).ready(old(display)),
        ensures
            old(self).order_done(OrderCode::GraphicEscape, old(display), final(self), final(display), r),
    {
        if self.pos >= self.data.len() {
            return Err(str_to_string("Missing character for GE order"));
        }
        let ch = self.data[self.pos];
        self.pos = self.pos + 1;
        proof {
            lemma_ops_keep_extents(display.state(), ch, 0, FieldAttribute { address: 0, base_attr: 0, extended_attrs: ExtendedAttributes::spec_empty(), length: 0 });
            lemma_ops_keep_ranges(display.state(), ch, 0, FieldAttribute { address: 0, base_attr: 0, extended_attrs: ExtendedAttributes::spec_empty(), length: 0 });
        }
        display.write_char(ch);
        Ok(())
    }

    /// Apply one order.
    fn process_order(&mut self, order: OrderCode, display: &mut Display3270) -> (r: Result<(), String>)
        requires
            old(self).ready(old(display)),
        ensures
            old(self).order_done(order, old(display), final(self), final(display), r),
    {
        match order {
            OrderCode::StartField => self.process_start_field(display),
            OrderCode::StartFieldExtended => self.process_start_field_extended(display),
            OrderCode::SetBufferAddress => self.process_set_buffer_address(display),
            OrderCode::SetAttribute => self.process_set_attribute(display),
            OrderCode::ModifyField => self.process_modify_field(display),
            OrderCode::InsertCursor => self.process_insert_cursor(display),
            OrderCode::ProgramTab => self.process_program_tab(display),
            OrderCode::RepeatToAddress => self.process_repeat_to_address(display),
            OrderCode::EraseUnprotectedToAddress => self.process_erase_unprotected_to_address(display),
            OrderCode::GraphicEscape => self.process_graphic_escape(display),
        }
    }

    /// Write, Erase/Write, Erase/Write Alternate: lock the keyboard, apply
    /// the Write Control Character, then process orders and data to the end
    /// of the stream.
    fn process_write(&mut self, display: &mut Display3270, erase: bool, _alternate: bool) -> (r: Result<(), String>)
        requires
            old(self).ready(old(display)),
        ensures
            old(self).reached(
                old(display),
                final(self),
                final(display),
                spec_write(old(self).data@, old(self).pos as int, old(display).state(), erase, old(self).use_14bit_addressing),
                r,
            ),
    {
        display.lock_keyboard();
        if self.pos >= self.data.len() {
            return Err(str_to_string("Missing WCC byte"));
        }
        let wcc = self.data[self.pos];
        self.pos = self.pos + 1;
        let ghost locked = with_lock(old(display).state(), true);
        if erase {
            proof {
                lemma_ops_keep_extents(display.state(), 0, 0, FieldAttribute { address: 0, base_attr: 0, extended_attrs: ExtendedAttributes::spec_empty(), length: 0 });
            lemma_ops_keep_ranges(display.state(), 0, 0, FieldAttribute { address: 0, base_attr: 0, extended_attrs: ExtendedAttributes::spec_empty(), length: 0 });
            }
            display.clear();
        }
        if (wcc & WCC_RESET) != 0 {
            reset_all_mdt(display);
        }
        if (wcc & WCC_ALARM) != 0 {
            display.set_alarm(true);
        }
        if (wcc & WCC_RESTORE) != 0 {
            display.unlock_keyboard();
        }
        if (wcc & WCC_RESET_MDT) != 0 {
            reset_all_mdt(display);
        }
        assert(display.state() == apply_wcc(locked, wcc, erase));
        let ghost start = self.pos as int;
        let ghost s0 = display.state();
        while self.pos < self.data.len()
            invariant
                self.data@ == old(self).data@,
                self.use_14bit_addressing == old(self).use_14bit_addressing,
                self.pos <= self.data@.len(),
                display.wf(),
                display.field_extents_fit(),
                spec_write_orders(self.data@, self.pos as int, display.state(), self.use_14bit_addressing)
                    == spec_write_orders(self.data@, start, s0, self.use_14bit_addressing),
                old(self).pos < self.data@.len(),
                wcc == self.data@[old(self).pos as int],
                start == old(self).pos + 1,
                s0 == apply_wcc(with_lock(old(display).state(), true), wcc, erase),
                ranges_fit(old(display).fields()) ==> ranges_fit(display.fields()),
            decreases self.data@.len() - self.pos,
        {
            let ghost p0 = self.pos as int;
            let ghost st0 = display.state();
            let byte = self.data[self.pos];
            match OrderCode::from_u8(byte) {
                Some(order) => {
                    self.pos = self.pos + 1;
                    let res = self.process_order(order, display);
                    if let Err(e) = res {
                        assert(spec_write_orders(self.data@, p0, st0, self.use_14bit_addressing) == (display.state(), Err::<int, Seq<char>>(e@)));
                        return Err(e);
                    }
                },
                None => {
                    proof {
                        lemma_ops_keep_extents(display.state(), byte, 0, FieldAttribute { address: 0, base_attr: 0, extended_attrs: ExtendedAttributes::spec_empty(), length: 0 });
            lemma_ops_keep_ranges(display.state(), byte, 0, FieldAttribute { address: 0, base_attr: 0, extended_attrs: ExtendedAttributes::spec_empty(), length: 0 });
                    }
                    display.write_char(byte);
                    self.pos = self.pos + 1;
                },
            }
        }
        Ok(())
    }

    /// Erase All Unprotected: null every unprotected field and unlock the
    /// keyboard.
    fn process_erase_all_unprotected(&mut self, display: &mut Display3270) -> (r: Result<(), String>)
        requires
            old(self).ready(old(display)),
        ensures
            old(self).reached(
                old(display),
                final(self),
                final(display),
                (spec_erase_all_unprotected(old(display).state()), Ok(old(self).pos as int)),
                r,
            ),
    {
        display.clear_unprotected();
        display.unlock_keyboard();
        Ok(())
    }

    /// Write Structured Field: structured fields to the end of the stream,
    /// each a big-endian length (at least four), a big-endian type and its
    /// content.
    fn process_write_structured_field(&mut self, display: &mut Display3270) -> (r: Result<(), String>)
        requires
            old(self).ready(old(display)),
        ensures
            old(self).reached(
                old(display),
                final(self),
                final(display),
                (old(display).state(), match spec_structured_fields(old(self).data@, old(self).pos as int) {
                    Ok(p) => Ok(p),
                    Err(e) => Err(e),
                }),
                r,
            ),
    {
        let ghost start = self.pos as int;
        while self.pos < self.data.len()
            invariant
                self.data@ == old(self).data@,
                self.use_14bit_addressing == old(self).use_14bit_addressing,
                self.pos <= self.data@.len(),
                display.state() == old(display).state(),
                display.wf(),
                display.field_extents_fit(),
                spec_structured_fields(self.data@, self.pos as int) == spec_structured_fields(self.data@, start),
                start == old(self).pos,
            decreases self.data@.len() - self.pos,
        {
            let ghost p0 = self.pos as int;
            if self.data.len() - self.pos < 2 {
                assert(spec_structured_fields(self.data@, p0) == Err::<int, Seq<char>>("Insufficient data for structured field length"@));
                return Err(str_to_string("Insufficient data for structured field length"));
            }
            let length = (self.data[self.pos] as usize) * 256 + (self.data[self.pos + 1] as usize);
            self.pos = self.pos + 2;
            if length < 4 {
                assert(spec_structured_fields(self.data@, p0) == Err::<int, Seq<char>>("Invalid structured field length"@));
                return Err(str_to_string("Invalid structured field length"));
            }
            if self.data.len() - self.pos < 2 {
                return Err(str_to_string("Insufficient data for structured field type"));
            }
            let sf_type = (self.data[self.pos] as u16) * 256 + (self.data[self.pos + 1] as u16);
            self.pos = self.pos + 2;
            let data_len = length - 4;
            if data_len > self.data.len() - self.pos {
                return Err(str_to_string("Insufficient data for structured field content"));
            }
            let sf_data = vstd::slice::slice_subrange(self.data, self.pos, self.pos + data_len);
            self.pos = self.pos + data_len;
            let res = self.process_structured_field(sf_type, sf_data, display);
            if let Err(e) = res {
                return Err(e);
            }
        }
        Ok(())
    }

    /// Dispatch one structured field by type; none of them changes the
    /// display.
    fn process_structured_field(&mut self, sf_type: u16, sf_data: &[u8], _display: &mut Display3270) -> (r: Result<(), String>)
        ensures
            r is Ok,
            *final(self) == *old(self),
            *final(_display) == *old(_display),
    {
        if sf_type == SF_QUERY_REPLY {
            self.process_query_reply(sf_data)
        } else if sf_type == SF_OUTBOUND_3270DS {
            Ok(())
        } else {
            Ok(())
        }
    }

    /// Walk the (type, length, data) entries of a Query Reply; the terminal
    /// keeps its own capabilities, so nothing is recorded.
    fn process_query_reply(&mut self, sf_data: &[u8]) -> (r: Result<(), String>)
        ensures
            r is Ok,
            *final(self) == *old(self),
    {
        let mut pos: usize = 0;
        while pos < sf_data.len()
            invariant
                pos <= sf_data@.len(),
            decreases sf_data@.len() - pos,
        {
            let _query_type = sf_data[pos];
            pos = pos + 1;
            if pos >= sf_data.len() {
                break;
            }
            let length = sf_data[pos] as usize;
            pos = pos + 1;
            if length > sf_data.len() - pos {
                break;
            }
            pos = pos + length;
        }
        Ok(())
    }

    /// Apply one command; the result names the read reply it asks for, if
    /// any.
    fn process_command(&mut self, command: CommandCode, display: &mut Display3270) -> (r: Result<Option<ProcessorState>, String>)
        requires
            old(self).ready(old(display)),
        ensures
            ({
                let o = spec_command(command, old(self).data@, old(self).pos as int, old(display).state(), old(self).use_14bit_addressing);
                &&& old(self).same_stream(final(self))
                &&& final(display).wf()
                &&& final(display).field_extents_fit()
                &&& final(display).state() == o.0
                &&& (ranges_fit(old(display).fields()) ==> ranges_fit(final(display).fields()))
                &&& command_result(r, final(self).pos, o.1)
                &&& (r is Ok ==> final(self).pos <= final(self).data@.len())
            }),
    {
        match command {
            CommandCode::Write => {
                match self.process_write(display, false, false) {
                    Ok(()) => Ok(None),
                    Err(e) => Err(e),
                }
            },
            CommandCode::EraseWrite => {
                match self.process_write(display, true, false) {
                    Ok(()) => Ok(None),
                    Err(e) => Err(e),
                }
            },
            CommandCode::EraseWriteAlternate => {
                match self.process_write(display, true, true) {
                    Ok(()) => Ok(None),
                    Err(e) => Err(e),
                }
            },
            CommandCode::ReadBuffer => Ok(Some(ProcessorState::PendingReadBuffer)),
            CommandCode::ReadModified => Ok(Some(ProcessorState::PendingReadModified)),
            CommandCode::ReadModifiedAll => Ok(Some(ProcessorState::PendingReadModifiedAll)),
            CommandCode::EraseAllUnprotected => {
                match self.process_erase_all_unprotected(display) {
                    Ok(()) => Ok(None),
                    Err(e) => Err(e),
                }
            },
            CommandCode::WriteStructuredField => {
                match self.process_write_structured_field(display) {
                    Ok(()) => Ok(None),
                    Err(e) => Err(e),
                }
            },
        }
    }

    /// Process commands to the end of the stream; the result is the last
    /// read reply asked for.
    fn parse(&mut self, display: &mut Display3270) -> (r: Result<Option<ProcessorState>, String>)
        requires
            old(self).ready(old(display)),
        ensures
            ({
                let o = spec_parse(old(self).data@, old(self).pos as int, old(display).state(), None, old(self).use_14bit_addressing);
                &&& (ranges_fit(old(display).fields()) ==> ranges_fit(final(display).fields()))
                &&& final(display).wf()
                &&& final(display).field_extents_fit()
                &&& final(display).state() == o.0
                &&& match o.1 {
                    Ok(req) => r == Ok::<Option<ProcessorState>, String>(req),
                    Err(e) => r matches Err(m) && m@ == e,
                }
            }),
    {
        let mut pending_state: Option<ProcessorState> = None;
        let ghost start = self.pos as int;
        let ghost s0 = display.state();
        while self.pos < self.data.len()
            invariant
                self.data@ == old(self).data@,
                self.use_14bit_addressing == old(self).use_14bit_addressing,
                self.pos <= self.data@.len(),
                display.wf(),
                display.field_extents_fit(),
                spec_parse(self.data@, self.pos as int, display.state(), pending_state, self.use_14bit_addressing)
                    == spec_parse(self.data@, start, s0, None, self.use_14bit_addressing),
                start == old(self).pos,
                s0 == old(display).state(),
                ranges_fit(old(display).fields()) ==> ranges_fit(display.fields()),
            decreases self.data@.len() - self.pos,
        {
            let ghost p0 = self.pos as int;
            let ghost st0 = display.state();
            let cmd_byte = self.data[self.pos];
            self.pos = self.pos + 1;
            match CommandCode::from_u8(cmd_byte) {
                Some(command) => {
                    let res = self.process_command(command, display);
                    proof {
                        lemma_command_advances(command, self.data@, p0 + 1, st0, self.use_14bit_addressing);
                    }
                    match res {
                        Ok(Some(state)) => {
                            pending_state = Some(state);
                        },
                        Ok(None) => {},
                        Err(e) => {
                            assert(spec_parse(self.data@, p0, st0, pending_state, self.use_14bit_addressing) == (display.state(), Err::<Option<ProcessorState>, Seq<char>>(e@)));
                            return Err(e);
                        },
                    }
                },
                None => {
                    assert(spec_parse(self.data@, p0, st0, pending_state, self.use_14bit_addressing) == (display.state(), Err::<Option<ProcessorState>, Seq<char>>(unknown_command_message(cmd_byte))));
                    let msg = string_concat(str_to_string("Unknown command code: 0x"), hex_byte_string(cmd_byte).as_str());
                    return Err(msg);
                },
            }
        }
        Ok(pending_state)
    }
}

/// The two bytes of a buffer address.
pub open spec fn address_bytes(address: u16, use14: bool) -> Seq<u8> {
    seq![spec_encode_address(address, use14).0, spec_encode_address(address, use14).1]
}

/// The start of every reply to the host: the AID byte and the cursor
/// address.
pub open spec fn reply_header(aid: AidKey, cursor: u16, use14: bool) -> Seq<u8> {
    seq![aid.spec_byte()] + address_bytes(cursor, use14)
}

/// One field as sent to the host: Set Buffer Address, its address, then its
/// text in EBCDIC.
pub open spec fn field_bytes(address: u16, text: Seq<char>, use14: bool) -> Seq<u8> {
    seq![ORDER_SBA] + address_bytes(address, use14) + text.map_values(|c: char| spec_ascii_to_ebcdic(c))
}

/// A list of fields as sent to the host.
pub open spec fn encoded_fields(fields: Seq<(u16, Seq<char>)>, use14: bool) -> Seq<u8>
    decreases fields.len(),
{
    if fields.len() == 0 {
        Seq::empty()
    } else {
        encoded_fields(fields.drop_last(), use14) + field_bytes(fields.last().0, fields.last().1, use14)
    }
}

/// The (address, text) pairs of a list of fields, texts taken by value.
pub open spec fn field_views(fields: Seq<(u16, String)>) -> Seq<(u16, Seq<char>)> {
    fields.map_values(|p: (u16, String)| (p.0, p.1@))
}

/// The text of buffer positions `start` up to `end`, each character
/// converted from EBCDIC, nulls left out.
pub open spec fn field_text(cells: Seq<DisplayCell>, start: int, end: int) -> Seq<char>
    decreases end - start,
{
    if end <= start {
        Seq::empty()
    } else {
        let prev = field_text(cells, start, end - 1);
        let c = spec_ebcdic_to_ascii(cells[end - 1].char_data);
        if c == '\0' {
            prev
        } else {
            prev.push(c)
        }
    }
}

/// The first position after a field's text, bounded by the buffer.
pub open spec fn field_text_end(f: FieldAttribute, buffer_len: int) -> int {
    let end = f.address + 1 + (f.length as u16);
    if end < buffer_len {
        end
    } else {
        buffer_len
    }
}

/// The (address, text) pairs of the given fields whose text is not blank.
pub open spec fn field_entries(cells: Seq<DisplayCell>, fields: Seq<FieldAttribute>) -> Seq<(u16, Seq<char>)>
    decreases fields.len(),
{
    if fields.len() == 0 {
        Seq::empty()
    } else {
        let prev = field_entries(cells, fields.drop_last());
        let f = fields.last();
        let text = field_text(cells, f.address + 1, field_text_end(f, cells.len() as int));
        if is_blank(text) {
            prev
        } else {
            prev.push((f.address, text))
        }
    }
}

/// The modified fields of a display as sent to the host.
pub open spec fn modified_entries(display: Display3270) -> Seq<(u16, Seq<char>)> {
    field_entries(display.cells(), display.fields().filter(|f: FieldAttribute| f.spec_is_modified()))
}

/// Whether every modified field's text range fits in a buffer address.
pub open spec fn modified_ranges_fit(display: Display3270) -> bool {
    forall|i: int|
        0 <= i < display.fields().len() && (#[trigger] display.fields()[i]).spec_is_modified()
            ==> display.fields()[i].address + 1 + (display.fields()[i].length as u16) <= u16::MAX
}

/// The TN3270 protocol processor: parses host data streams into a display
/// and builds the replies.
pub struct ProtocolProcessor3270 {
    state: ProcessorState,
    display: Display3270,
    use_14bit_addressing: bool,
}

impl ProtocolProcessor3270 {
    /// The reply that processing left pending.
    pub closed spec fn processor_state(&self) -> ProcessorState {
        self.state
    }

    /// The processor's own display.
    pub closed spec fn own_display(&self) -> Display3270 {
        self.display
    }

    /// Whether buffer addresses use 14 bits.
    pub closed spec fn uses_14bit(&self) -> bool {
        self.use_14bit_addressing
    }

    /// The processor's display is well formed and its field extents fit.
    pub open spec fn display_ok(&self) -> bool {
        &&& self.own_display().wf()
        &&& self.own_display().field_extents_fit()
        &&& ranges_fit(self.own_display().fields())
    }

    /// A processor in the Ready state with a Model 2 display and 12-bit
    /// addressing.
    pub fn new() -> (r: Self)
        ensures
            r.display_ok(),
            r.processor_state() == ProcessorState::Ready,
            r.own_display().state() == fresh_state(ScreenSize::Model2),
            !r.uses_14bit(),
    {
        ProtocolProcessor3270 { state: ProcessorState::Ready, display: Display3270::new(), use_14bit_addressing: false }
    }

    /// The reply that processing left pending.
    pub fn state(&self) -> (r: ProcessorState)
        ensures
            r == self.processor_state(),
    {
        self.state
    }

    /// Choose 14-bit (true) or 12-bit (false) buffer addresses.
    pub fn set_14bit_addressing(&mut self, enabled: bool)
        ensures
            final(self).uses_14bit() == enabled,
            final(self).processor_state() == old(self).processor_state(),
            final(self).own_display() == old(self).own_display(),
    {
        self.use_14bit_addressing = enabled;
    }

    /// Process a 3270 data stream into `display`: commands in turn from the
    /// start, stopping at the first error. A read command leaves its reply
    /// pending; otherwise the pending reply stays.
    pub fn process_data(&mut self, data: &[u8], display: &mut Display3270) -> (r: Result<(), String>)
        requires
            old(display).wf(),
            old(display).field_extents_fit(),
        ensures
            ({
                let o = spec_parse(data@, 0, old(display).state(), None, old(self).uses_14bit());
                &&& final(display).wf()
                &&& final(display).field_extents_fit()
                &&& final(display).state() == o.0
                &&& final(self).uses_14bit() == old(self).uses_14bit()
                &&& final(self).own_display() == old(self).own_display()
                &&& match o.1 {
                    Ok(req) => r is Ok && final(self).processor_state() == match req {
                        Some(st) => st,
                        None => old(self).processor_state(),
                    },
                    Err(e) => r matches Err(m) && m@ == e && final(self).processor_state() == old(self).processor_state(),
                }
            }),
    {
        if data.len() == 0 {
            return Ok(());
        }
        let mut parser = DataStreamParser::new(data, self.use_14bit_addressing);
        match parser.parse(display) {
            Ok(pending_state) => {
                if let Some(state) = pending_state {
                    self.state = state;
                }
                Ok(())
            },
            Err(e) => Err(e),
        }
    }

    /// Process a 3270 data stream into the processor's own display.
    fn process_data_internal(&mut self, data: &[u8]) -> (r: Result<(), String>)
        requires
            old(self).display_ok(),
        ensures
            final(self).display_ok(),
            ({
                let o = spec_parse(data@, 0, old(self).own_display().state(), None, old(self).uses_14bit());
                &&& final(self).own_display().state() == o.0
                &&& final(self).uses_14bit() == old(self).uses_14bit()
                &&& match o.1 {
                    Ok(req) => r is Ok && final(self).processor_state() == match req {
                        Some(st) => st,
                        None => old(self).processor_state(),
                    },
                    Err(e) => r matches Err(m) && m@ == e && final(self).processor_state() == old(self).processor_state(),
                }
            }),
    {
        if data.len() == 0 {
            return Ok(());
        }
        let mut parser = DataStreamParser::new(data, self.use_14bit_addressing);
        match parser.parse(&mut self.display) {
            Ok(pending_state) => {
                if let Some(state) = pending_state {
                    self.state = state;
                }
                Ok(())
            },
            Err(e) => Err(e),
        }
    }

    /// The two bytes of a buffer address in the processor's addressing mode.
    fn encode_address(&self, address: u16) -> (r: (u8, u8))
        ensures
            r == spec_encode_address(address, self.uses_14bit()),
    {
        if self.use_14bit_addressing {
            encode_14bit_address(address)
        } else {
            encode_12bit_address(address)
        }
    }

    /// The AID byte followed by the cursor address.
    fn reply_start(&self, display: &Display3270, aid: AidKey) -> (r: Vec<u8>)
        ensures
            r@ == reply_header(aid, display.cursor(), self.uses_14bit()),
    {
        let mut response: Vec<u8> = Vec::new();
        response.push(aid.to_u8());
        let cursor_addr = display.cursor_address();
        let (b1, b2) = self.encode_address(cursor_addr);
        response.push(b1);
        response.push(b2);
        proof {
            assert(response@ =~= reply_header(aid, display.cursor(), self.uses_14bit()));
        }
        response
    }

    /// Read Buffer reply: the AID, the cursor address, then every buffer
    /// position's character data.
    pub fn create_read_buffer_response(&self, display: &Display3270, aid: AidKey) -> (r: Vec<u8>)
        ensures
            r@ == reply_header(aid, display.cursor(), self.uses_14bit()) + display.cells().map_values(
                |c: DisplayCell| c.char_data,
            ),
    {
        let mut response = self.reply_start(display, aid);
        let mut data = display.get_buffer_data();
        response.append(&mut data);
        response
    }

    /// Read Modified reply: the AID, the cursor address, then every modified
    /// field whose text is not blank.
    pub fn create_read_modified_response(&self, display: &Display3270, aid: AidKey) -> (r: Vec<u8>)
        requires
            display.wf(),
            modified_ranges_fit(*display),
        ensures
            r@ == reply_header(aid, display.cursor(), self.uses_14bit()) + encoded_fields(
                modified_entries(*display),
                self.uses_14bit(),
            ),
    {
        let mut response = self.reply_start(display, aid);
        let modified_fields = self.get_modified_fields(display);
        let mut field_data = self.encode_field_data(modified_fields.as_slice());
        assert(field_views(modified_fields@) =~= modified_entries(*display));
        response.append(&mut field_data);
        response
    }

    /// Fields as sent to the host: for each, Set Buffer Address, its address
    /// and its text in EBCDIC.
    pub fn encode_field_data(&self, field_data: &[(u16, String)]) -> (r: Vec<u8>)
        ensures
            r@ == encoded_fields(field_views(field_data@), self.uses_14bit()),
    {
        let mut encoded: Vec<u8> = Vec::new();
        let mut i: usize = 0;
        while i < field_data.len()
            invariant
                i <= field_data@.len(),
                encoded@ == encoded_fields(field_views(field_data@.take(i as int)), self.uses_14bit()),
            decreases field_data@.len() - i,
        {
            let item = &field_data[i];
            let address = item.0;
            let content = item.1.as_str();
            let ghost before = encoded@;
            encoded.push(ORDER_SBA);
            let (b1, b2) = self.encode_address(address);
            encoded.push(b1);
            encoded.push(b2);
            let n = content.unicode_len();
            let mut k: usize = 0;
            while k < n
                invariant
                    n == content@.len(),
                    k <= n,
                    encoded@ == before + seq![ORDER_SBA] + address_bytes(address, self.uses_14bit())
                        + content@.take(k as int).map_values(|c: char| spec_ascii_to_ebcdic(c)),
                decreases n - k,
            {
                let ch = content.get_char(k);
                let ebcdic_byte = ascii_to_ebcdic(ch);
                encoded.push(ebcdic_byte);
                k = k + 1;
                proof {
                    assert(content@.take(k as int) =~= content@.take(k - 1).push(ch));
                }
            }
            proof {
                let prefix = field_data@.take(i + 1);
                assert(prefix.drop_last() =~= field_data@.take(i as int));
                assert(field_views(prefix).drop_last() =~= field_views(prefix.drop_last()));
                assert(content@.take(n as int) =~= content@);
            }
            i = i + 1;
        }
        assert(field_data@.take(field_data@.len() as int) =~= field_data@);
        encoded
    }

    /// The modified fields of a display whose text is not blank, in field
    /// order: each field's address and the text of the positions after its
    /// attribute (up to its length, bounded by the buffer), converted from
    /// EBCDIC with nulls left out.
    pub fn get_modified_fields(&self, display: &Display3270) -> (r: Vec<(u16, String)>)
        requires
            display.wf(),
            modified_ranges_fit(*display),
        ensures
            field_views(r@) == modified_entries(*display),
    {
        proof {
            lemma_buffer_size_bounds(display.size());
        }
        let mut modified_fields: Vec<(u16, String)> = Vec::new();
        let fields = display.field_manager().modified_fields();
        let ghost mfs = fields@.map_values(|f: &FieldAttribute| *f);
        let ghost cells = display.cells();
        proof {
            let pred = |f: FieldAttribute| f.spec_is_modified();
            assert(mfs == display.fields().filter(pred));
            assert forall|k: int| 0 <= k < mfs.len() implies #[trigger] display.fields().contains(mfs[k]) by {
                assert(mfs.contains(mfs[k]));
                display.fields().lemma_filter_contains_rev(pred, mfs[k]);
                broadcast use vstd::seq_lib::group_filter_ensures;
            }
        }
        let buffer_size = display.buffer_size() as u16;
        let mut i: usize = 0;
        while i < fields.len()
            invariant
                display.wf(),
                modified_ranges_fit(*display),
                cells == display.cells(),
                buffer_size as int == cells.len(),
                mfs == fields@.map_values(|f: &FieldAttribute| *f),
                mfs == display.fields().filter(|f: FieldAttribute| f.spec_is_modified()),
                forall|k: int| 0 <= k < mfs.len() ==> #[trigger] display.fields().contains(mfs[k]),
                i <= fields@.len(),
                field_views(modified_fields@) == field_entries(cells, mfs.take(i as int)),
            decreases fields@.len() - i,
        {
            let field = fields[i];
            proof {
                let pred = |f: FieldAttribute| f.spec_is_modified();
                assert(mfs[i as int] == *field);
                assert(display.fields().contains(*field));
                let j = choose|j: int| 0 <= j < display.fields().len() && display.fields()[j] == *field;
                assert(mfs.contains(*field));
                broadcast use vstd::seq_lib::group_filter_ensures;
                assert(field.spec_is_modified());
                assert(display.fields()[j].spec_is_modified());
            }
            let start_addr = field.address + 1;
            let end_addr = start_addr + #[verifier::truncate] (field.length as u16);
            let stop = if end_addr < buffer_size { end_addr } else { buffer_size };
            let mut content = String::new();
            let mut addr = start_addr;
            while addr < stop
                invariant
                    display.wf(),
                    cells == display.cells(),
                    stop <= cells.len(),
                    start_addr <= addr,
                    addr <= stop || addr == start_addr,
                    content@ == field_text(cells, start_addr as int, addr as int),
                decreases stop - addr,
            {
                let ghost before = content@;
                if let Some(ch) = display.read_char_at(addr) {
                    let ascii_ch = ebcdic_to_ascii(ch);
                    if ascii_ch != '\0' {
                        string_push(&mut content, ascii_ch);
                    }
                }
                proof {
                    let c = spec_ebcdic_to_ascii(cells[addr as int].char_data);
                    assert(field_text(cells, start_addr as int, addr + 1) == if c == '\0' { before } else { before.push(c) });
                }
                addr = addr + 1;
            }
            proof {
                if stop <= start_addr {
                    assert(content@ == field_text(cells, start_addr as int, stop as int));
                }
                assert(stop as int == field_text_end(*field, cells.len() as int));
                assert(mfs.take((i + 1) as int).drop_last() =~= mfs.take(i as int));
                assert(mfs.take((i + 1) as int).last() == *field);
            }
            let blank = text_is_blank(content.as_str());
            if !blank {
                let ghost prev = modified_fields@;
                modified_fields.push((field.address, content));
                proof {
                    assert(field_views(modified_fields@) =~= field_views(prev).push((field.address, content@)));
                }
            }
            i = i + 1;
        }
        assert(mfs.take(fields@.len() as int) =~= mfs);
        modified_fields
    }

    /// Reply to an attention key with the given field list: the AID, the
    /// cursor address, then the fields.
    pub fn send_input_fields(&self, display: &Display3270, aid: AidKey, modified_fields: &[(u16, String)]) -> (r: Vec<u8>)
        ensures
            r@ == reply_header(aid, display.cursor(), self.uses_14bit()) + encoded_fields(
                field_views(modified_fields@),
                self.uses_14bit(),
            ),
    {
        let mut response = self.reply_start(display, aid);
        let mut field_data = self.encode_field_data(modified_fields);
        response.append(&mut field_data);
        response
    }

    /// Reply to an attention key with raw pending input: the AID, the cursor
    /// address, then the input bytes.
    pub fn send_field_input(&self, display: &Display3270, aid: AidKey, pending_input: &[u8]) -> (r: Vec<u8>)
        ensures
            r@ == reply_header(aid, display.cursor(), self.uses_14bit()) + pending_input@,
    {
        let mut response = self.reply_start(display, aid);
        let mut i: usize = 0;
        let ghost start = response@;
        while i < pending_input.len()
            invariant
                i <= pending_input@.len(),
                response@ == start + pending_input@.take(i as int),
            decreases pending_input@.len() - i,
        {
            response.push(pending_input[i]);
            i = i + 1;
            assert(response@ =~= start + pending_input@.take(i as int));
        }
        assert(pending_input@.take(pending_input@.len() as int) =~= pending_input@);
        response
    }
}

/// The answer to a TN3270E subnegotiation: DEVICE-TYPE gets the Model 2
/// color device type, BIND gets an empty logical unit name, every other
/// request (CONNECT among them) is acknowledged with IS.
pub open spec fn tn3270e_reply(data: Seq<u8>) -> Option<Seq<u8>> {
    if data.len() == 0 {
        None
    } else if data[0] == 2 {
        Some(seq![255u8, 250, 40, 4, 2, 0x82, 255, 240])
    } else if data[0] == 6 {
        Some(seq![255u8, 250, 40, 4, 6, 0, 255, 240])
    } else if data[0] == 1 {
        Some(seq![255u8, 250, 40, 4, 1, 255, 240])
    } else {
        Some(seq![255u8, 250, 40, 4, data[0], 255, 240])
    }
}

/// The terminal type this emulator announces, in ASCII.
pub open spec fn terminal_type_name() -> Seq<u8> {
    seq![0x49u8, 0x42, 0x4D, 0x2D, 0x33, 0x31, 0x37, 0x39, 0x2D, 0x32]
}

/// The answer to a telnet option request (`data` empty) or subnegotiation.
pub open spec fn negotiation_reply(option: u8, data: Seq<u8>) -> Option<Seq<u8>> {
    if option == 0 || option == 3 || option == 25 {
        if data.len() == 0 {
            Some(seq![255u8, 251, option])
        } else {
            None
        }
    } else if option == 24 {
        if data.len() == 0 {
            Some(seq![255u8, 251, 24])
        } else if data[0] == 1 {
            Some(seq![255u8, 250, 24, 0] + terminal_type_name() + seq![255u8, 240])
        } else {
            None
        }
    } else if option == 40 {
        if data.len() == 0 {
            Some(seq![255u8, 253, 40])
        } else {
            tn3270e_reply(data)
        }
    } else if data.len() == 0 {
        Some(seq![255u8, 254, option])
    } else {
        None
    }
}

/// A byte vector by its view, when present.
pub open spec fn opt_view(r: Option<Vec<u8>>) -> Option<Seq<u8>> {
    match r {
        Some(v) => Some(v@),
        None => None,
    }
}

impl ProtocolProcessor3270 {
    /// Answer a TN3270E subnegotiation.
    fn handle_tn3270e_negotiation(&mut self, data: &[u8]) -> (r: Option<Vec<u8>>)
        ensures
            opt_view(r) == tn3270e_reply(data@),
            *final(self) == *old(self),
    {
        if data.len() == 0 {
            return None;
        }
        let first = data[0];
        if first == 2 {
            let mut response = vec![255u8, 250, 40, 4, 2, 0x82];
            response.push(255);
            response.push(240);
            Some(response)
        } else if first == 6 {
            let mut response = vec![255u8, 250, 40, 4, 6];
            response.push(0);
            response.push(255);
            response.push(240);
            Some(response)
        } else if first == 1 {
            Some(vec![255u8, 250, 40, 4, 1, 255, 240])
        } else {
            let mut response = vec![255u8, 250, 40, 4, first];
            response.push(255);
            response.push(240);
            Some(response)
        }
    }

    /// The reply left pending, built from the processor's own display with
    /// no AID; the processor returns to Ready. Read Modified All is answered
    /// like Read Modified.
    fn pending_response(&mut self) -> (r: Option<Vec<u8>>)
        requires
            old(self).display_ok(),
            modified_ranges_fit(old(self).own_display()),
        ensures
            final(self).own_display() == old(self).own_display(),
            final(self).uses_14bit() == old(self).uses_14bit(),
            match old(self).processor_state() {
                ProcessorState::PendingReadBuffer => {
                    &&& final(self).processor_state() == ProcessorState::Ready
                    &&& opt_view(r) == Some(
                        reply_header(AidKey::NoAid, old(self).own_display().cursor(), old(self).uses_14bit())
                            + old(self).own_display().cells().map_values(|c: DisplayCell| c.char_data),
                    )
                },
                ProcessorState::PendingReadModified | ProcessorState::PendingReadModifiedAll => {
                    &&& final(self).processor_state() == ProcessorState::Ready
                    &&& opt_view(r) == Some(
                        reply_header(AidKey::NoAid, old(self).own_display().cursor(), old(self).uses_14bit())
                            + encoded_fields(modified_entries(old(self).own_display()), old(self).uses_14bit()),
                    )
                },
                _ => r is None && final(self).processor_state() == old(self).processor_state(),
            },
    {
        match self.state {
            ProcessorState::PendingReadBuffer => {
                let response = self.create_read_buffer_response(&self.display, AidKey::NoAid);
                self.state = ProcessorState::Ready;
                Some(response)
            },
            ProcessorState::PendingReadModified => {
                let response = self.create_read_modified_response(&self.display, AidKey::NoAid);
                self.state = ProcessorState::Ready;
                Some(response)
            },
            ProcessorState::PendingReadModifiedAll => {
                let response = self.create_read_modified_response(&self.display, AidKey::NoAid);
                self.state = ProcessorState::Ready;
                Some(response)
            },
            _ => None,
        }
    }

    /// Answer a telnet option request or subnegotiation.
    fn negotiate(&mut self, option: u8, data: &[u8]) -> (r: Option<Vec<u8>>)
        ensures
            opt_view(r) == negotiation_reply(option, data@),
            *final(self) == *old(self),
    {
        if option == 0 || option == 3 || option == 25 {
            if data.len() == 0 {
                Some(vec![255u8, 251, option])
            } else {
                None
            }
        } else if option == 24 {
            if data.len() == 0 {
                Some(vec![255u8, 251, 24])
            } else if data[0] == 1 {
                let mut response = vec![255u8, 250, 24, 0];
                let mut name = vec![0x49u8, 0x42, 0x4D, 0x2D, 0x33, 0x31, 0x37, 0x39, 0x2D, 0x32];
                response.append(&mut name);
                response.push(255);
                response.push(240);
                assert(response@ =~= seq![255u8, 250, 24, 0] + terminal_type_name() + seq![255u8, 240]);
                Some(response)
            } else {
                None
            }
        } else if option == 40 {
            if data.len() == 0 {
                Some(vec![255u8, 253, 40])
            } else {
                self.handle_tn3270e_negotiation(data)
            }
        } else if data.len() == 0 {
            Some(vec![255u8, 254, option])
        } else {
            None
        }
    }
}

impl Default for ProtocolProcessor3270 {
    fn default() -> (r: Self)
        ensures
            r.display_ok(),
            r.processor_state() == ProcessorState::Ready,
            r.own_display().state() == fresh_state(ScreenSize::Model2),
            !r.uses_14bit(),
    {
        Self::new()
    }
}

impl TerminalProtocol for ProtocolProcessor3270 {
    open spec fn inv(&self) -> bool {
        self.display_ok()
    }

    /// Process host data into the processor's own display; the exact
    /// outcome is that of `process_data_internal`.
    fn process_data(&mut self, data: &[u8]) -> (r: Result<(), String>) {
        self.process_data_internal(data)
    }

    /// The pending read reply from the processor's own display, with no
    /// AID; the processor returns to Ready. Nothing is pending in Ready and
    /// Processing.
    fn generate_response(&mut self) -> (r: Option<Vec<u8>>)
        ensures
            final(self).own_display() == old(self).own_display(),
            final(self).uses_14bit() == old(self).uses_14bit(),
            match old(self).processor_state() {
                ProcessorState::PendingReadBuffer => {
                    &&& final(self).processor_state() == ProcessorState::Ready
                    &&& opt_view(r) == Some(
                        reply_header(AidKey::NoAid, old(self).own_display().cursor(), old(self).uses_14bit())
                            + old(self).own_display().cells().map_values(|c: DisplayCell| c.char_data),
                    )
                },
                ProcessorState::PendingReadModified | ProcessorState::PendingReadModifiedAll => {
                    &&& final(self).processor_state() == ProcessorState::Ready
                    &&& opt_view(r) == Some(
                        reply_header(AidKey::NoAid, old(self).own_display().cursor(), old(self).uses_14bit())
                            + encoded_fields(modified_entries(old(self).own_display()), old(self).uses_14bit()),
                    )
                },
                _ => r is None && final(self).processor_state() == old(self).processor_state(),
            },
    {
        self.pending_response()
    }

    /// Back to Ready; the display stays.
    fn reset(&mut self)
        ensures
            final(self).processor_state() == ProcessorState::Ready,
            final(self).own_display() == old(self).own_display(),
            final(self).uses_14bit() == old(self).uses_14bit(),
    {
        self.state = ProcessorState::Ready;
    }

    /// "TN3270".
    fn protocol_name(&self) -> (r: &str)
        ensures
            r@ == "TN3270"@,
    {
        "TN3270"
    }

    /// Every processor state counts as connected.
    fn is_connected(&self) -> (r: bool)
        ensures
            r,
    {
        match self.state {
            ProcessorState::Ready | ProcessorState::Processing | ProcessorState::PendingReadBuffer
            | ProcessorState::PendingReadModified | ProcessorState::PendingReadModifiedAll => true,
        }
    }

    /// Answer a telnet option request or subnegotiation.
    fn handle_negotiation(&mut self, option: u8, data: &[u8]) -> (r: Option<Vec<u8>>)
        ensures
            opt_view(r) == negotiation_reply(option, data@),
            *final(self) == *old(self),
    {
        self.negotiate(option, data)
    }
}

} // verus!
