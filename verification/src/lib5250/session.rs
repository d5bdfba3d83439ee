//! A TN5250 session: the command interpreter for the host's 5250 data
//! stream (display writes, reads, saves, structured fields), the replies it
//! builds, authentication state and the integration of the telnet and
//! packet layers.

use vstd::prelude::*;
use vstd::string::StringSliceAdditionalSpecFns;
use crate::ebcdic::{ascii_to_ebcdic, spec_ascii_byte_to_ebcdic, spec_ascii_to_ebcdic, spec_ebcdic_to_ascii};
use crate::lib5250::codes::{
    CMD_CLEAR_FORMAT_TABLE, CMD_CLEAR_UNIT, CMD_CLEAR_UNIT_ALTERNATE, CMD_READ_IMMEDIATE, CMD_READ_INPUT_FIELDS,
    CMD_READ_MDT_FIELDS, CMD_READ_MDT_FIELDS_ALT, CMD_READ_SCREEN_IMMEDIATE, CMD_RESTORE_PARTIAL_SCREEN,
    CMD_RESTORE_SCREEN, CMD_ROLL, CMD_SAVE_PARTIAL_SCREEN, CMD_SAVE_SCREEN, CMD_WRITE_ERROR_CODE,
    CMD_WRITE_ERROR_CODE_WINDOW, CMD_WRITE_STRUCTURED_FIELD, CMD_WRITE_TO_DISPLAY, EA, IC, RA, SBA,
    SF, SF_5250_QUERY, SF_5250_QUERY_STATION_STATE, SF_DEFINE_PENDING_OPERATIONS,
    SF_DEFINE_ROLL_DIRECTION, SF_ENABLE_COMMAND_RECOGNITION, SF_ERASE_RESET, SF_QUERY_COMMAND,
    SF_SET_MONITOR_MODE, SF_SET_REPLY_MODE, SOH,
};
use crate::lib5250::display::{
    Display, DisplayModel, TN5250_DISPLAY_IND_FER, TN5250_DISPLAY_IND_INHIBIT, TN5250_DISPLAY_IND_INSERT,
};
use crate::terminal::TerminalChar;
use crate::lib5250::codes::CommandCode;
use crate::lib5250::protocol::{next_sequence, packet_bytes, parse_packet, Packet, ProtocolProcessor};
use crate::lib5250::telnet::TelnetNegotiator;
use crate::network::ProtocolMode;
use crate::text::{decimal_seq, hex_byte_seq, is_ascii_graphic, lemma_lower_hex_len, lower_hex_digits, unicode_alphanumeric};
use std::time::Instant;

verus! {

/// The escape byte that starts every 5250 command.
pub const ESC: u8 = 0x04;

/// The device identification a session starts with.
pub const DEFAULT_DEVICE_ID: &'static str = "IBM-5555-C01";

/// Where the 5250 start-up exchange stands.
#[derive(Debug, Clone, Copy, PartialEq, Eq, Structural)]
pub enum HandshakeState {
    Initial,
    QuerySent,
    QueryReplyReceived,
    ScreenInitialized,
}

/// What command processing changes of a session.
pub ghost struct SessionModel {
    pub display: DisplayModel,
    pub read_opcode: u8,
    pub sequence_number: u8,
    pub invited: bool,
    pub handshake: HandshakeState,
}

/// The outcome of a step of command processing: the session afterwards and
/// either the next position in the data with the reply bytes, or an error
/// message.
pub type Step = (SessionModel, Result<(int, Seq<u8>), Seq<char>>);

/// The message for running out of data.
pub open spec fn end_of_data() -> Seq<char> {
    "Unexpected end of data"@
}

/// A byte subtraction that wraps below zero.
pub open spec fn wrap_dec(b: u8) -> u8 {
    if b == 0 { 255 } else { (b - 1) as u8 }
}

/// A byte less one, stopping at zero.
pub open spec fn sat_dec(b: u8) -> u8 {
    if b == 0 { 0 } else { (b - 1) as u8 }
}

/// Whether a character is a control character (Unicode category Cc).
pub open spec fn is_control(c: char) -> bool {
    (c as u32) < 0x20 || (0x7F <= (c as u32) && (c as u32) <= 0x9F)
}

/// Whether an EBCDIC byte is shown as a printable character.
pub open spec fn is_printable_ebcdic(b: u8) -> bool {
    !is_control(spec_ebcdic_to_ascii(b))
}

/// The display after writing a character `n` times.
pub open spec fn addch_n(m: DisplayModel, ch: u8, n: nat) -> DisplayModel
    decreases n,
{
    if n == 0 {
        m
    } else {
        addch_n(m, ch, (n - 1) as nat).addch(ch)
    }
}

/// The number of positions from the cursor through (end_row, end_col),
/// wrapping past the end of the display.
pub open spec fn repeat_count(row: int, col: int, end_row: int, end_col: int, width: int, height: int) -> int {
    let start_index = row * width + col;
    let end_index = end_row * width + end_col;
    if end_index >= start_index {
        end_index - start_index + 1
    } else {
        (width * height - start_index) + (end_index + 1)
    }
}

/// The control character 1 of a write: any of the top three bits locks the
/// keyboard.
pub open spec fn apply_cc1(m: DisplayModel, cc1: u8) -> DisplayModel {
    if cc1 & 0xE0 != 0 { m.set_locked(true) } else { m }
}

/// The control character 2 of a write: bit 0x04 sounds the alarm, bit 0x02
/// unlocks the keyboard.
pub open spec fn apply_cc2(m: DisplayModel, cc2: u8) -> DisplayModel {
    let m1 = if cc2 & 0x04 != 0 { m.beep() } else { m };
    if cc2 & 0x02 != 0 { m1.set_locked(false) } else { m1 }
}

/// The position of the attribute byte after field control words that start
/// at `q`: each word is two bytes whose first does not look like an
/// attribute (top three bits 001).
pub open spec fn skip_fcws(buf: Seq<u8>, q: int) -> Result<int, Seq<char>>
    decreases buf.len() - q,
{
    if q < 0 || q >= buf.len() {
        Err(end_of_data())
    } else if buf[q] & 0xE0 == 0x20 {
        Ok(q)
    } else if q + 1 >= buf.len() {
        Err(end_of_data())
    } else {
        skip_fcws(buf, q + 2)
    }
}

/// The attribute found after field control words lies at or after the
/// position the search starts from.
pub proof fn lemma_skip_fcws_forward(buf: Seq<u8>, q: int)
    ensures
        skip_fcws(buf, q) matches Ok(a) ==> q <= a < buf.len(),
    decreases buf.len() - q,
{
    if 0 <= q < buf.len() && buf[q] & 0xE0 != 0x20 && q + 1 < buf.len() {
        lemma_skip_fcws_forward(buf, q + 2);
    }
}

/// Start of Field at `p`: an input field has a two-byte field format word
/// and optional control words before its attribute, an output field starts
/// with its attribute; the attribute is written on the display and a
/// two-byte length follows.
pub open spec fn start_of_field(buf: Seq<u8>, p: int, m: DisplayModel) -> (DisplayModel, Result<int, Seq<char>>) {
    if p >= buf.len() {
        (m, Err(end_of_data()))
    } else if buf[p] & 0xE0 != 0x20 {
        if p + 1 >= buf.len() {
            (m, Err(end_of_data()))
        } else {
            match skip_fcws(buf, p + 2) {
                Ok(a) => {
                    let m1 = m.addch(buf[a]);
                    if a + 2 >= buf.len() { (m1, Err(end_of_data())) } else { (m1, Ok(a + 3)) }
                },
                Err(e) => (m, Err(e)),
            }
        }
    } else {
        let m1 = m.addch(buf[p]);
        if p + 2 >= buf.len() { (m1, Err(end_of_data())) } else { (m1, Ok(p + 3)) }
    }
}

/// Repeat to Address at `p`: end row, end column (from 1) and a
/// character, written from the cursor through the end position (clamped
/// to the display), wrapping past the end of the display.
pub open spec fn repeat_to_address(buf: Seq<u8>, p: int, m: DisplayModel) -> (DisplayModel, Result<int, Seq<char>>) {
    if p + 2 >= buf.len() {
        (m, Err(end_of_data()))
    } else {
        let er = if (sat_dec(buf[p]) as int) < m.height - 1 { sat_dec(buf[p]) as int } else { m.height - 1 };
        let ec = if (sat_dec(buf[p + 1]) as int) < m.width - 1 { sat_dec(buf[p + 1]) as int } else { m.width - 1 };
        let n = repeat_count(m.row as int, m.col as int, er, ec, m.width as int, m.height as int);
        (addch_n(m, buf[p + 2], n as nat), Ok(p + 3))
    }
}

/// The cell a character written to the display shows: the EBCDIC byte as
/// its ASCII character, in the normal attribute.
pub open spec fn written_cell(ch: u8) -> TerminalChar {
    TerminalChar { character: spec_ebcdic_to_ascii(ch), attribute: crate::terminal::CharAttribute::Normal }
}

/// Writing a character `n` times from the cursor, without running past the
/// last cell, fills the `n` cells from the cursor's position in reading
/// order with it, leaves every other cell as it was, and leaves the cursor
/// just after the last one written (when that is still on the display).
pub proof fn lemma_addch_n_run(m: DisplayModel, ch: u8, n: nat)
    requires
        m.width > 0,
        m.height > 0,
        m.cells.len() == m.width * m.height,
        m.row < m.height,
        m.col < m.width,
        m.row * m.width + m.col + n <= m.width * m.height,
    ensures
        ({
            let s = m.row * m.width + m.col;
            let r = addch_n(m, ch, n);
            &&& r.cells.len() == m.cells.len()
            &&& r.width == m.width && r.height == m.height
            &&& forall|k: int| 0 <= k < m.cells.len() ==> #[trigger] r.cells[k] == if s <= k < s + n { written_cell(ch) } else { m.cells[k] }
            &&& s + n < m.width * m.height ==> r.row < m.height && r.col < m.width && r.row * m.width + r.col == s + n
        }),
    decreases n,
{
    let s = m.row * m.width + m.col;
    if n > 0 {
        let n1 = (n - 1) as nat;
        lemma_addch_n_run(m, ch, n1);
        let r1 = addch_n(m, ch, n1);
        let w = m.width as int;
        let h = m.height as int;
        let i = r1.row * w + r1.col;
        assert(i == s + n1);
        assert(0 <= i < w * h);
        let r = r1.addch(ch);
        assert(r == addch_n(m, ch, n));
        if s + n < w * h {
            let (nr, nc) = crate::lib5250::display::next_cursor(r1.row, r1.col, r1.width, r1.height);
            if r1.col + 1 < w {
                assert(nr * w + nc == i + 1);
            } else if r1.row + 1 < h {
                assert((r1.row + 1) * w == r1.row * w + w) by (nonlinear_arith);
                assert(nr * w + nc == i + 1);
            } else {
                assert(r1.row * w + r1.col == (h - 1) * w + (w - 1));
                assert((h - 1) * w + (w - 1) == w * h - 1) by (nonlinear_arith);
            }
        }
        assert forall|k: int| 0 <= k < m.cells.len() implies #[trigger] r.cells[k] == if s <= k < s + n { written_cell(ch) } else { m.cells[k] } by {
            assert(r1.cells[k] == if s <= k < s + n1 { written_cell(ch) } else { m.cells[k] });
        }
    } else {
        assert(addch_n(m, ch, 0) == m);
    }
}

/// Repeat to Address fills from the cursor through the end position it
/// names, the first parameter byte being the row and the second the column
/// (both from 1): when that position lies on the display at or after the
/// cursor, every cell from the cursor through it holds the character, and
/// the cells before the cursor and after the end position are unchanged.
pub proof fn lemma_repeat_to_address_fills_to_end(buf: Seq<u8>, p: int, m: DisplayModel)
    requires
        0 <= p,
        p + 2 < buf.len(),
        m.width > 0,
        m.height > 0,
        m.cells.len() == m.width * m.height,
        m.row < m.height,
        m.col < m.width,
        1 <= buf[p] <= m.height,
        1 <= buf[p + 1] <= m.width,
        m.row * m.width + m.col <= (buf[p] - 1) * m.width + (buf[p + 1] - 1),
    ensures
        ({
            let s = m.row * m.width + m.col;
            let e = (buf[p] - 1) * m.width + (buf[p + 1] - 1);
            let r = repeat_to_address(buf, p, m);
            &&& r.1 == Ok::<int, Seq<char>>(p + 3)
            &&& r.0.cells[e] == written_cell(buf[p + 2])
            &&& forall|k: int| s <= k <= e ==> #[trigger] r.0.cells[k] == written_cell(buf[p + 2])
            &&& forall|k: int| 0 <= k < s ==> #[trigger] r.0.cells[k] == m.cells[k]
            &&& forall|k: int| e < k < m.cells.len() ==> #[trigger] r.0.cells[k] == m.cells[k]
        }),
{
    let w = m.width as int;
    let h = m.height as int;
    let s = m.row * w + m.col;
    let e = (buf[p] - 1) * w + (buf[p + 1] - 1);
    assert(e <= (h - 1) * w + (w - 1)) by (nonlinear_arith)
        requires
            e == (buf[p] - 1) * w + (buf[p + 1] - 1),
            1 <= buf[p] <= h,
            1 <= buf[p + 1] <= w;
    assert((h - 1) * w + (w - 1) == w * h - 1) by (nonlinear_arith);
    let n = repeat_count(m.row as int, m.col as int, sat_dec(buf[p]) as int, sat_dec(buf[p + 1]) as int, w, h);
    assert(n == e - s + 1);
    lemma_addch_n_run(m, buf[p + 2], n as nat);
}

/// Set Buffer Address names the row first and the column second (both
/// from 1): with the position on the display, the cursor moves to that row
/// and column, and the next character written lands in cell
/// `(row - 1) * width + (column - 1)`. Insert Cursor names its position the
/// same way.
pub proof fn lemma_set_buffer_address_row_first(buf: Seq<u8>, pos: int, m: DisplayModel, ch: u8)
    requires
        0 <= pos,
        pos + 2 < buf.len(),
        m.width > 0,
        m.height > 0,
        m.cells.len() == m.width * m.height,
        1 <= buf[pos + 1] <= m.height,
        1 <= buf[pos + 2] <= m.width,
    ensures
        buf[pos] == SBA ==> ({
            let r = order_step(buf, pos, m);
            let cell = (buf[pos + 1] - 1) * m.width + (buf[pos + 2] - 1);
            &&& r.1 == Ok::<int, Seq<char>>(pos + 3)
            &&& r.0.row == buf[pos + 1] - 1
            &&& r.0.col == buf[pos + 2] - 1
            &&& r.0.cells == m.cells
            &&& 0 <= cell < m.cells.len()
            &&& r.0.addch(ch).cells[cell] == written_cell(ch)
        }),
        buf[pos] == IC ==> ({
            let r = order_step(buf, pos, m);
            &&& r.1 == Ok::<int, Seq<char>>(pos + 3)
            &&& r.0.pending_insert
            &&& r.0.insert_row == buf[pos + 1] - 1
            &&& r.0.insert_col == buf[pos + 2] - 1
        }),
{
    let w = m.width as int;
    let h = m.height as int;
    let cell = (buf[pos + 1] - 1) * w + (buf[pos + 2] - 1);
    assert(cell <= (h - 1) * w + (w - 1)) by (nonlinear_arith)
        requires
            cell == (buf[pos + 1] - 1) * w + (buf[pos + 2] - 1),
            1 <= buf[pos + 1] <= h,
            1 <= buf[pos + 2] <= w;
    assert((h - 1) * w + (w - 1) == w * h - 1) by (nonlinear_arith);
    assert(0 <= cell) by (nonlinear_arith)
        requires
            cell == (buf[pos + 1] - 1) * w + (buf[pos + 2] - 1),
            1 <= buf[pos + 1],
            1 <= buf[pos + 2],
            0 < w;
}

/// Erase to Address at `p`: end row, end column (from 1), a count and that
/// many attribute types; when type 0 (all) or 1 (unprotected) is among
/// them the cells from the cursor through the end position are blanked.
pub open spec fn erase_to_address(buf: Seq<u8>, p: int, m: DisplayModel) -> (DisplayModel, Result<int, Seq<char>>) {
    if p + 2 >= buf.len() || p + 3 + buf[p + 2] > buf.len() {
        (m, Err(end_of_data()))
    } else {
        let attrs = buf.subrange(p + 3, p + 3 + buf[p + 2]);
        let m1 = if attrs.contains(0) || attrs.contains(1) {
            m.erase_region(m.row, m.col, sat_dec(buf[p]) as usize, sat_dec(buf[p + 1]) as usize)
        } else {
            m
        };
        (m1, Ok(p + 3 + buf[p + 2]))
    }
}

/// Start of Header at `p`: a length of at most 7 and that many header
/// bytes; a non-empty header resets the field formatting and locks the
/// keyboard.
pub open spec fn start_of_header(buf: Seq<u8>, p: int, m: DisplayModel) -> (DisplayModel, Result<int, Seq<char>>) {
    if p >= buf.len() {
        (m, Err(end_of_data()))
    } else if buf[p] > 7 {
        (m, Err("Invalid SOH length: "@ + decimal_seq(buf[p] as nat)))
    } else if p + 1 + buf[p] > buf.len() {
        (m, Err(end_of_data()))
    } else if buf[p] == 0 {
        (m, Ok(p + 1))
    } else {
        (m.clear_format_table().set_locked(true), Ok(p + 1 + buf[p]))
    }
}

/// One order or character of a Write to Display at `pos` (not an escape
/// byte): the display afterwards and the position after it, or an error.
pub open spec fn order_step(buf: Seq<u8>, pos: int, m: DisplayModel) -> (DisplayModel, Result<int, Seq<char>>) {
    let order = buf[pos];
    let p = pos + 1;
    if order == SBA {
        if p + 1 >= buf.len() {
            (m, Err(end_of_data()))
        } else {
            (m.set_cursor(wrap_dec(buf[p]) as usize, wrap_dec(buf[p + 1]) as usize), Ok(p + 2))
        }
    } else if order == SF {
        start_of_field(buf, p, m)
    } else if order == IC {
        if p + 1 >= buf.len() {
            (m, Err(end_of_data()))
        } else {
            (m.set_pending_insert(wrap_dec(buf[p]) as usize, wrap_dec(buf[p + 1]) as usize), Ok(p + 2))
        }
    } else if order == RA {
        repeat_to_address(buf, p, m)
    } else if order == EA {
        erase_to_address(buf, p, m)
    } else if order == SOH {
        start_of_header(buf, p, m)
    } else if is_printable_ebcdic(order) {
        (m.addch(order), Ok(p))
    } else {
        (m, Err("Unknown order: 0x"@ + hex_byte_seq(order)))
    }
}

/// An order that succeeds moves past its own byte.
pub proof fn lemma_order_step_advances(buf: Seq<u8>, pos: int, m: DisplayModel)
    requires
        0 <= pos < buf.len(),
    ensures
        order_step(buf, pos, m).1 matches Ok(n) ==> pos < n <= buf.len(),
{
    lemma_skip_fcws_forward(buf, pos + 3);
}

/// The orders and characters of a Write to Display from `pos`, up to an
/// escape byte (left in place) or the end of the data.
pub open spec fn wtd_orders(buf: Seq<u8>, pos: int, m: DisplayModel) -> (DisplayModel, Result<int, Seq<char>>)
    decreases buf.len() - pos,
{
    if pos < 0 || pos >= buf.len() || buf[pos] == ESC {
        (m, Ok(pos))
    } else {
        let step = order_step(buf, pos, m);
        match step.1 {
            Ok(n) => if pos < n {
                wtd_orders(buf, n, step.0)
            } else {
                (step.0, Ok(n))
            },
            Err(e) => (step.0, Err(e)),
        }
    }
}

/// Write to Display at `pos` (after the command byte): two control
/// characters, then orders and characters.
pub open spec fn write_to_display(buf: Seq<u8>, pos: int, m: DisplayModel) -> (DisplayModel, Result<int, Seq<char>>) {
    if pos + 1 >= buf.len() {
        (m, Err(end_of_data()))
    } else {
        let (m1, r) = wtd_orders(buf, pos + 2, apply_cc1(m, buf[pos]));
        match r {
            Ok(n) => (apply_cc2(m1, buf[pos + 1]), Ok(n)),
            Err(e) => (m1, Err(e)),
        }
    }
}

/// The outcome of a command: the session afterwards and either the
/// position after the command with the reply it produced (if any), or an
/// error message.
pub type CommandOutcome = (SessionModel, Result<(int, Option<Seq<u8>>), Seq<char>>);

/// A display step seen as a command without a reply.
pub open spec fn lift(s: SessionModel, o: (DisplayModel, Result<int, Seq<char>>)) -> CommandOutcome {
    (
        SessionModel { display: o.0, ..s },
        match o.1 {
            Ok(n) => Ok((n, None)),
            Err(e) => Err(e),
        },
    )
}

/// A byte addition that wraps past 255.
pub open spec fn wrap_inc(b: u8) -> u8 {
    if b == 255 { 0 } else { (b + 1) as u8 }
}

/// The position of the first escape byte at or after `p` (or the end).
pub open spec fn message_end(buf: Seq<u8>, p: int) -> int
    decreases buf.len() - p,
{
    if p < 0 || p >= buf.len() || buf[p] == ESC {
        p
    } else {
        message_end(buf, p + 1)
    }
}

/// The display after writing EBCDIC characters one after the other.
pub open spec fn addch_seq(m: DisplayModel, chars: Seq<u8>) -> DisplayModel
    decreases chars.len(),
{
    if chars.len() == 0 {
        m
    } else {
        addch_seq(m, chars.drop_last()).addch(chars.last())
    }
}

/// Write Error Code at `pos` (after the command byte): the window form
/// first has two window bytes; the message (up to an escape byte) is
/// written on row 24 after clearing it.
pub open spec fn write_error_code(buf: Seq<u8>, pos: int, cmd: u8, m: DisplayModel) -> (DisplayModel, Result<int, Seq<char>>) {
    if cmd == CMD_WRITE_ERROR_CODE_WINDOW && pos + 2 > buf.len() {
        (m, Err(end_of_data()))
    } else {
        let q = if cmd == CMD_WRITE_ERROR_CODE_WINDOW { pos + 2 } else { pos };
        let e = message_end(buf, q);
        (addch_seq(m.erase_region(23, 0, 23, 79).set_cursor(23, 0), buf.subrange(q, e)), Ok(e))
    }
}

/// A read command at `pos`: two control characters are applied, the
/// keyboard is unlocked and the command waits for an attention key.
pub open spec fn read_command(buf: Seq<u8>, pos: int, cmd: u8, s: SessionModel) -> CommandOutcome {
    if pos + 1 >= buf.len() {
        (s, Err(end_of_data()))
    } else {
        (
            SessionModel {
                display: apply_cc2(apply_cc1(s.display, buf[pos]), buf[pos + 1]).set_locked(false),
                read_opcode: cmd,
                ..s
            },
            Ok((pos + 2, None)),
        )
    }
}

/// The EBCDIC code of each screen position in reading order.
pub open spec fn screen_bytes(m: DisplayModel) -> Seq<u8> {
    m.cells.map_values(|c: TerminalChar| spec_ascii_byte_to_ebcdic(c.character as u8))
}

/// Set Buffer Address orders with the character for each non-null
/// position among the first `n` of the screen data.
pub open spec fn screen_orders(data: Seq<u8>, width: int, n: int) -> Seq<u8>
    decreases n,
{
    if n <= 0 {
        Seq::empty()
    } else {
        let i = n - 1;
        screen_orders(data, width, i) + if data[i] != 0 {
            seq![SBA, (i / width + 1) as u8, (i % width + 1) as u8, data[i]]
        } else {
            Seq::empty()
        }
    }
}

/// The reply to Save Screen: a Write to Display that recreates the screen,
/// followed by the pending read command, if any.
pub open spec fn save_screen_reply(s: SessionModel) -> Seq<u8> {
    let data = screen_bytes(s.display);
    let orders = screen_orders(data, s.display.width as int, data.len() as int);
    let length = orders.len() + 3;
    seq![ESC, CMD_WRITE_TO_DISPLAY, s.sequence_number, (length / 256) as u8, (length % 256) as u8, 0x00, 0xC0, 0x02]
        + orders + if s.read_opcode != 0 {
        seq![ESC, s.read_opcode, 0x00, 0x00]
    } else {
        Seq::empty()
    }
}

/// Roll at `pos`: a direction byte (low five bits the line count, bit
/// 0x80 set for down), then the top and bottom rows (from 1).
pub open spec fn roll_step(buf: Seq<u8>, pos: int, m: DisplayModel) -> (DisplayModel, Result<int, Seq<char>>) {
    if pos + 2 >= buf.len() {
        (m, Err(end_of_data()))
    } else {
        let d = buf[pos];
        let count = (d & 0x1F) as int;
        let lines = if d & 0x80 == 0 { -count } else { count };
        (if lines != 0 { m.roll(wrap_dec(buf[pos + 1]), wrap_dec(buf[pos + 2]), lines) } else { m }, Ok(pos + 3))
    }
}

/// The Query Reply describing this IBM-5555-C01 display, 61 bytes (67
/// with enhanced features).
pub open spec fn query_reply(enhanced: bool) -> Seq<u8> {
    seq![0x00u8, 0x00, 0x88, 0x00, if enhanced { 0x40 } else { 0x3A }, 0xD9, 0x70, 0x80, 0x06, 0x00, 0x01, 0x01, 0x00]
        + Seq::new(16, |i: int| 0x00u8) + seq![
        0x01u8, 0x35, 0x35, 0x35, 0x35, 0x43, 0x30, 0x31, 0x02, 0x00, 0x00, 0x00, 0x61, 0x50, 0x00, 0xFF, 0xFF, 0x00, 0x00,
        0x00, 0x23, 0x31, 0x00, 0x00, if enhanced { 0x02 } else { 0x00 }, if enhanced { 0x80 } else { 0x00 }
    ] + Seq::new(if enhanced { 12 } else { 6 }, |i: int| 0x00u8)
}

/// The Set Reply Mode answer to a Query Command: 80 x 24, basic display.
pub open spec fn set_reply_mode_reply() -> Seq<u8> {
    seq![SF_SET_REPLY_MODE, 0x00, 0x01, 0x00, 0x50, 0x00, 0x18]
}

/// Write Structured Field at `pos`: a two-byte length, the class (0xD9)
/// and the type, then what the type reads.
pub open spec fn structured_field(buf: Seq<u8>, pos: int, s: SessionModel, enhanced: bool) -> CommandOutcome {
    if pos + 3 >= buf.len() {
        (s, Err(end_of_data()))
    } else {
        let class = buf[pos + 2];
        let t = buf[pos + 3];
        let q = pos + 4;
        let one_byte = if q < buf.len() { q + 1 } else { q };
        if class != 0xD9 {
            (s, Err("Invalid SF class: 0x"@ + hex_byte_seq(class)))
        } else if t == SF_5250_QUERY || t == SF_5250_QUERY_STATION_STATE {
            (SessionModel { handshake: HandshakeState::QueryReplyReceived, ..s }, Ok((q, Some(query_reply(enhanced)))))
        } else if t == SF_QUERY_COMMAND {
            (s, Ok((q, Some(set_reply_mode_reply()))))
        } else if t == SF_ERASE_RESET {
            let clears = q >= buf.len() || buf[q] == 0x00 || buf[q] == 0x01;
            let d = if clears { s.display.screen_clear().set_cursor(0, 0) } else { s.display };
            (SessionModel { display: d, read_opcode: 0, invited: false, ..s }, Ok((one_byte, Some(Seq::empty()))))
        } else if t == SF_DEFINE_PENDING_OPERATIONS {
            (s, Ok((buf.len() as int, Some(Seq::empty()))))
        } else if t == SF_ENABLE_COMMAND_RECOGNITION || t == SF_DEFINE_ROLL_DIRECTION || t == SF_SET_MONITOR_MODE {
            (s, Ok((one_byte, Some(Seq::empty()))))
        } else {
            (s, Ok((q, Some(Seq::empty()))))
        }
    }
}

/// The fields and indicators Clear Unit clears.
pub open spec fn clear_unit_indicators() -> u32 {
    TN5250_DISPLAY_IND_INSERT | TN5250_DISPLAY_IND_INHIBIT | TN5250_DISPLAY_IND_FER
}

/// One command `cmd` whose parameters start at `pos`.
pub open spec fn command_step(buf: Seq<u8>, pos: int, cmd: u8, s: SessionModel, enhanced: bool) -> CommandOutcome {
    if cmd == CMD_CLEAR_UNIT {
        (SessionModel { display: s.display.clear_to(80, 24, clear_unit_indicators(), false), read_opcode: 0, ..s }, Ok((pos, None)))
    } else if cmd == CMD_CLEAR_UNIT_ALTERNATE {
        if pos >= buf.len() {
            (s, Err(end_of_data()))
        } else if buf[pos] != 0x00 && buf[pos] != 0x80 {
            (s, Err("Invalid Clear Unit Alternate parameter: 0x"@ + hex_byte_seq(buf[pos])))
        } else {
            (
                SessionModel { display: s.display.clear_to(132, 27, TN5250_DISPLAY_IND_INSERT, true), read_opcode: 0, ..s },
                Ok((pos + 1, None)),
            )
        }
    } else if cmd == CMD_CLEAR_FORMAT_TABLE {
        (SessionModel { display: s.display.clear_format_table(), read_opcode: 0, ..s }, Ok((pos, None)))
    } else if cmd == CMD_WRITE_TO_DISPLAY {
        lift(s, write_to_display(buf, pos, s.display))
    } else if cmd == CMD_WRITE_ERROR_CODE || cmd == CMD_WRITE_ERROR_CODE_WINDOW {
        lift(s, write_error_code(buf, pos, cmd, s.display))
    } else if cmd == CMD_READ_INPUT_FIELDS || cmd == CMD_READ_MDT_FIELDS || cmd == CMD_READ_MDT_FIELDS_ALT {
        read_command(buf, pos, cmd, s)
    } else if cmd == CMD_READ_SCREEN_IMMEDIATE {
        (s, Ok((pos, Some(screen_bytes(s.display)))))
    } else if cmd == CMD_READ_IMMEDIATE {
        (s, Ok((pos, Some(seq![(s.display.row + 1) as u8, (s.display.col + 1) as u8, 0x00]))))
    } else if cmd == CMD_SAVE_SCREEN {
        (SessionModel { sequence_number: wrap_inc(s.sequence_number), ..s }, Ok((pos, Some(save_screen_reply(s)))))
    } else if cmd == CMD_SAVE_PARTIAL_SCREEN {
        if pos + 5 > buf.len() {
            (s, Err(end_of_data()))
        } else {
            (SessionModel { sequence_number: wrap_inc(s.sequence_number), ..s }, Ok((pos + 5, Some(save_screen_reply(s)))))
        }
    } else if cmd == CMD_RESTORE_SCREEN || cmd == CMD_RESTORE_PARTIAL_SCREEN {
        (s, Ok((pos, None)))
    } else if cmd == CMD_ROLL {
        lift(s, roll_step(buf, pos, s.display))
    } else if cmd == CMD_WRITE_STRUCTURED_FIELD {
        structured_field(buf, pos, s, enhanced)
    } else {
        (s, Err("Unknown command: 0x"@ + hex_byte_seq(cmd)))
    }
}

/// The reply bytes of a command (none when it has no reply).
pub open spec fn reply_bytes(out: Option<Seq<u8>>) -> Seq<u8> {
    match out {
        Some(b) => b,
        None => Seq::empty(),
    }
}

/// Bytes in front of a successful result.
pub open spec fn prepend(a: Seq<u8>, r: Result<Seq<u8>, Seq<char>>) -> Result<Seq<u8>, Seq<char>> {
    match r {
        Ok(x) => Ok(a + x),
        Err(e) => Err(e),
    }
}

/// The commands from `pos` to the end of the data, each an escape byte, a
/// command byte and its parameters: the session afterwards and the replies
/// one after the other, or the first error.
pub open spec fn commands(buf: Seq<u8>, pos: int, s: SessionModel, enhanced: bool) -> (SessionModel, Result<Seq<u8>, Seq<char>>)
    decreases buf.len() - pos,
{
    if pos < 0 || pos >= buf.len() {
        (s, Ok(Seq::empty()))
    } else if buf[pos] != ESC {
        (s, Err("Invalid command - missing ESC"@))
    } else if pos + 1 >= buf.len() {
        (s, Err(end_of_data()))
    } else {
        let step = command_step(buf, pos + 2, buf[pos + 1], s, enhanced);
        match step.1 {
            Err(e) => (step.0, Err(e)),
            Ok((n, out)) => if pos < n && n <= buf.len() {
                let rest = commands(buf, n, step.0, enhanced);
                (rest.0, prepend(reply_bytes(out), rest.1))
            } else {
                (step.0, Ok(reply_bytes(out)))
            },
        }
    }
}

/// Screen orders take at most four bytes per position.
pub proof fn lemma_screen_orders_len(data: Seq<u8>, width: int, n: int)
    ensures
        screen_orders(data, width, n).len() <= 4 * (if n < 0 { 0 } else { n }),
    decreases n,
{
    if n > 0 {
        lemma_screen_orders_len(data, width, n - 1);
    }
}

/// The position (row, col) of a grid `width` wide has index
/// row * width + col, from which row and col come back.
pub proof fn lemma_index_row_col(row: int, col: int, width: int)
    requires
        0 <= row,
        0 <= col < width,
    ensures
        (row * width + col) / width == row,
        (row * width + col) % width == col,
{
    assert((row * width + col) / width == row && (row * width + col) % width == col) by (nonlinear_arith)
        requires 0 <= row, 0 <= col < width;
}

/// A successful result as a command reply.
pub open spec fn some_reply(r: Result<Vec<u8>, String>) -> Result<Option<Vec<u8>>, String> {
    match r {
        Ok(v) => Ok(Some(v)),
        Err(e) => Err(e),
    }
}

/// A successful result without a reply.
pub open spec fn no_reply(r: Result<(), String>) -> Result<Option<Vec<u8>>, String> {
    match r {
        Ok(()) => Ok(None),
        Err(e) => Err(e),
    }
}

/// The orders of a Write to Display end at or after where they start.
pub proof fn lemma_wtd_orders_forward(buf: Seq<u8>, pos: int, m: DisplayModel)
    requires
        0 <= pos,
    ensures
        wtd_orders(buf, pos, m).1 matches Ok(n) ==> pos <= n,
    decreases buf.len() - pos,
{
    if pos < buf.len() && buf[pos] != ESC {
        lemma_order_step_advances(buf, pos, m);
        let step = order_step(buf, pos, m);
        if let Ok(n) = step.1 {
            if pos < n {
                lemma_wtd_orders_forward(buf, n, step.0);
            }
        }
    }
}

/// An error message ends at or after where it starts.
pub proof fn lemma_message_end_forward(buf: Seq<u8>, p: int)
    ensures
        p <= message_end(buf, p),
    decreases buf.len() - p,
{
    if 0 <= p < buf.len() && buf[p] != ESC {
        lemma_message_end_forward(buf, p + 1);
    }
}

/// A command that succeeds ends at or after where its parameters start.
pub proof fn lemma_command_step_forward(buf: Seq<u8>, pos: int, cmd: u8, s: SessionModel, enhanced: bool)
    requires
        0 <= pos <= buf.len(),
    ensures
        command_step(buf, pos, cmd, s, enhanced).1 matches Ok((n, _)) ==> pos <= n,
{
    if pos + 1 < buf.len() {
        lemma_wtd_orders_forward(buf, pos + 2, apply_cc1(s.display, buf[pos]));
    }
    lemma_message_end_forward(buf, pos);
    lemma_message_end_forward(buf, pos + 2);
}

/// Bytes put in front one after the other.
pub proof fn lemma_prepend_twice(a: Seq<u8>, b: Seq<u8>, r: Result<Seq<u8>, Seq<char>>)
    ensures
        prepend(a, prepend(b, r)) == prepend(a + b, r),
{
    if let Ok(x) = r {
        assert(a + (b + x) =~= (a + b) + x);
    }
}

/// The message of a refused oversized block.
pub open spec fn size_error() -> Seq<char> {
    "Command size exceeds maximum allowed"@
}

/// The message of a refused command flood.
pub open spec fn rate_error() -> Seq<char> {
    "Rate limit exceeded"@
}

/// The message of a refused unauthenticated request.
pub open spec fn auth_error() -> Seq<char> {
    "Session authentication required"@
}

/// Commands per rate-limit window.
pub const MAX_COMMANDS_PER_SECOND: usize = 100;

/// The rate-limit window, in nanoseconds.
pub const RATE_LIMIT_WINDOW_NANOS: u128 = 1_000_000_000;

/// The longest a session lives without a command, in nanoseconds.
pub const MAX_SESSION_AGE_NANOS: u128 = 3_600_000_000_000;

/// Whether a user name character is accepted: alphanumeric, '_' or '-'.
pub open spec fn user_char_ok(c: char) -> bool {
    unicode_alphanumeric(c) || c == '_' || c == '-'
}

/// Whether credentials pass the basic checks: a user name of at least two
/// bytes of accepted characters and a password of at least four bytes of
/// ASCII graphic characters.
pub open spec fn credentials_ok(user: &str, password: &str) -> bool {
    &&& user.spec_bytes().len() >= 2
    &&& password.spec_bytes().len() >= 4
    &&& forall|i: int| 0 <= i < user@.len() ==> #[trigger] user_char_ok(user@[i])
    &&& forall|i: int| 0 <= i < password@.len() ==> #[trigger] is_ascii_graphic(password@[i])
}

/// The fields of a reply: for each, Set Buffer Address with the row and
/// column (each cut to a byte), then the text in EBCDIC.
pub open spec fn encoded_field_data(fields: Seq<(usize, usize, String)>) -> Seq<u8>
    decreases fields.len(),
{
    if fields.len() == 0 {
        Seq::empty()
    } else {
        let f = fields.last();
        encoded_field_data(fields.drop_last()) + seq![SBA, f.0 as u8, f.1 as u8] + f.2@.map_values(|c: char| spec_ascii_to_ebcdic(c))
    }
}

/// A packet header: escape, command, sequence number, a two-byte length
/// of what follows it (`rest`) and that.
pub open spec fn packet_with(cmd: u8, seq_no: u8, rest: Seq<u8>) -> Seq<u8> {
    seq![ESC, cmd, seq_no, (rest.len() / 256) as u8, (rest.len() % 256) as u8] + rest
}

/// The Query packet: a Write Structured Field asking for the device's
/// capabilities.
pub open spec fn query_packet(seq_no: u8) -> Seq<u8> {
    packet_with(CMD_WRITE_STRUCTURED_FIELD, seq_no, seq![0x00, 0x00, 0x03, 0xD9, SF_5250_QUERY, 0x80])
}

/// A Write to Display that locks then unlocks the keyboard and puts the
/// cursor at (1, 1).
pub open spec fn init_wtd_packet(seq_no: u8) -> Seq<u8> {
    packet_with(CMD_WRITE_TO_DISPLAY, seq_no, seq![0x00, 0xC0, 0x02, SBA, 0x01, 0x01])
}

/// An empty Write to Display.
pub open spec fn empty_wtd_packet(seq_no: u8) -> Seq<u8> {
    packet_with(CMD_WRITE_TO_DISPLAY, seq_no, seq![0x00])
}

/// A Read Input Fields with null control characters.
pub open spec fn read_input_fields_packet(seq_no: u8) -> Seq<u8> {
    packet_with(CMD_READ_INPUT_FIELDS, seq_no, seq![0x00, 0x00, 0x00])
}

/// Which integrated components a session has.
#[derive(Debug, Clone, Copy, PartialEq, Eq, Structural)]
pub struct IntegrationHealth {
    pub telnet_negotiator: bool,
    pub protocol_processor: bool,
    pub display: bool,
    pub session: bool,
    pub overall_healthy: bool,
}

/// A TN5250 session.
#[derive(Debug)]
pub struct Session {
    /// Whether the host has invited the session to send.
    pub invited: bool,
    /// The read command waiting for an attention key (0 for none).
    pub read_opcode: u8,
    /// The sequence number of the next packet the session builds.
    pub sequence_number: u8,
    /// The data being interpreted.
    pub data_buffer: Vec<u8>,
    /// The position in `data_buffer`.
    pub buffer_pos: usize,
    pub display: Display,
    pub device_id: String,
    /// Whether enhanced 5250 features are announced.
    pub enhanced: bool,
    pub authenticated: bool,
    pub session_token: Option<String>,
    /// The largest block of data accepted at once.
    pub max_command_size: usize,
    /// Commands in the current rate-limit window.
    pub command_count: usize,
    /// When the last command was processed.
    pub last_command_time: Instant,
    pub protocol_mode: ProtocolMode,
    pub telnet_negotiator: Option<TelnetNegotiator>,
    pub protocol_processor: Option<ProtocolProcessor>,
    /// Data kept for plain-text (NVT) consumers.
    pub fallback_buffer: Vec<u8>,
    pub handshake_state: HandshakeState,
}

impl Session {
    /// What command processing changes.
    pub open spec fn model(&self) -> SessionModel {
        SessionModel {
            display: self.display.model(),
            read_opcode: self.read_opcode,
            sequence_number: self.sequence_number,
            invited: self.invited,
            handshake: self.handshake_state,
        }
    }

    /// The display is well formed, at most 27 x 132, with the cursor on it.
    pub open spec fn wf(&self) -> bool {
        &&& self.display.wf()
        &&& 0 < self.display.model().width <= 132
        &&& 0 < self.display.model().height <= 27
        &&& self.display.model().row < self.display.model().height
        &&& self.display.model().col < self.display.model().width
        &&& self.buffer_pos <= self.data_buffer@.len()
    }

    /// Everything but the display, the data position and the fields
    /// command processing changes stays.
    pub open spec fn same_context(&self, other: &Self) -> bool {
        &&& other.data_buffer == self.data_buffer
        &&& other.device_id == self.device_id
        &&& other.enhanced == self.enhanced
        &&& other.authenticated == self.authenticated
        &&& other.session_token == self.session_token
        &&& other.max_command_size == self.max_command_size
        &&& other.command_count == self.command_count
        &&& other.last_command_time == self.last_command_time
        &&& other.protocol_mode == self.protocol_mode
        &&& other.telnet_negotiator == self.telnet_negotiator
        &&& other.protocol_processor == self.protocol_processor
        &&& other.fallback_buffer == self.fallback_buffer
    }

    /// The next byte of data.
    fn get_byte(&mut self) -> (r: Result<u8, String>)
        ensures
            old(self).same_context(final(self)),
            final(self).display == old(self).display,
            final(self).model() == old(self).model(),
            old(self).buffer_pos < old(self).data_buffer@.len() ==> r == Ok::<u8, String>(old(self).data_buffer@[old(self).buffer_pos as int])
                && final(self).buffer_pos == old(self).buffer_pos + 1,
            old(self).buffer_pos >= old(self).data_buffer@.len() ==> (r matches Err(m) && m@ == end_of_data())
                && final(self).buffer_pos == old(self).buffer_pos,
    {
        if self.buffer_pos >= self.data_buffer.len() {
            return Err(crate::text::str_to_string("Unexpected end of data"));
        }
        let byte = self.data_buffer[self.buffer_pos];
        self.buffer_pos = self.buffer_pos + 1;
        Ok(byte)
    }

    /// Whether an EBCDIC byte shows as a printable character.
    fn is_printable_char(&self, ch: u8) -> (r: bool)
        ensures
            r == is_printable_ebcdic(ch),
    {
        let c = crate::ebcdic::ebcdic_to_ascii(ch);
        let v = c as u32;
        !(v < 0x20 || (0x7F <= v && v <= 0x9F))
    }

    /// Apply control character 1 (see `apply_cc1`).
    fn handle_cc1(&mut self, cc1: u8)
        requires
            old(self).wf(),
        ensures
            final(self).wf(),
            old(self).same_context(final(self)),
            final(self).buffer_pos == old(self).buffer_pos,
            final(self).model() == (SessionModel { display: apply_cc1(old(self).model().display, cc1), ..old(self).model() }),
    {
        if (cc1 & 0xE0) != 0 {
            self.display.lock_keyboard();
        }
    }

    /// Apply control character 2 (see `apply_cc2`).
    fn handle_cc2(&mut self, cc2: u8)
        requires
            old(self).wf(),
        ensures
            final(self).wf(),
            old(self).same_context(final(self)),
            final(self).buffer_pos == old(self).buffer_pos,
            final(self).model() == (SessionModel { display: apply_cc2(old(self).model().display, cc2), ..old(self).model() }),
    {
        if (cc2 & 0x04) != 0 {
            self.display.beep();
        }
        if (cc2 & 0x02) != 0 {
            self.display.unlock_keyboard();
        }
    }

    /// The session after a display step agrees with its specified outcome.
    pub open spec fn step_done(&self, after: &Self, o: (DisplayModel, Result<int, Seq<char>>), r: Result<(), String>) -> bool {
        &&& self.same_context(after)
        &&& after.wf()
        &&& after.model() == (SessionModel { display: o.0, ..self.model() })
        &&& match o.1 {
            Ok(n) => r is Ok && after.buffer_pos as int == n,
            Err(e) => r matches Err(m) && m@ == e,
        }
    }

    /// The session after a command agrees with its specified outcome.
    pub open spec fn command_done(&self, after: &Self, o: CommandOutcome, r: Result<Option<Vec<u8>>, String>) -> bool {
        &&& self.same_context(after)
        &&& after.wf()
        &&& after.model() == o.0
        &&& match o.1 {
            Ok((n, out)) => r matches Ok(x) && after.buffer_pos as int == n && match x {
                Some(v) => out == Some(v@),
                None => out is None,
            },
            Err(e) => r matches Err(m) && m@ == e,
        }
    }

    /// Start of Field (see `start_of_field`).
    fn start_of_field(&mut self) -> (r: Result<(), String>)
        requires
            old(self).wf(),
        ensures
            old(self).step_done(final(self), start_of_field(old(self).data_buffer@, old(self).buffer_pos as int, old(self).model().display), r),
    {
        let first_byte = match self.get_byte() {
            Ok(b) => b,
            Err(e) => {
                return Err(e);
            },
        };
        if (first_byte & 0xE0) != 0x20 {
            let _ffw2 = match self.get_byte() {
                Ok(b) => b,
                Err(e) => {
                    return Err(e);
                },
            };
            let ghost q0 = self.buffer_pos as int;
            let mut next_byte = match self.get_byte() {
                Ok(b) => b,
                Err(e) => {
                    return Err(e);
                },
            };
            while (next_byte & 0xE0) != 0x20
                invariant
                    old(self).same_context(self),
                    self.display == old(self).display,
                    self.model() == old(self).model(),
                    0 < self.buffer_pos <= self.data_buffer@.len(),
                    next_byte == self.data_buffer@[self.buffer_pos - 1],
                    skip_fcws(self.data_buffer@, self.buffer_pos - 1) == skip_fcws(self.data_buffer@, q0),
                    q0 == old(self).buffer_pos + 2,
                    old(self).buffer_pos + 1 < self.data_buffer@.len(),
                    self.data_buffer@[old(self).buffer_pos as int] & 0xE0 != 0x20,
                    old(self).wf(),
                decreases self.data_buffer@.len() - self.buffer_pos,
            {
                let _fcw2 = match self.get_byte() {
                    Ok(b) => b,
                    Err(e) => {
                        return Err(e);
                    },
                };
                proof {
                    assert(skip_fcws(self.data_buffer@, self.buffer_pos - 2) == skip_fcws(self.data_buffer@, self.buffer_pos as int));
                }
                next_byte = match self.get_byte() {
                    Ok(b) => b,
                    Err(e) => {
                        assert(skip_fcws(self.data_buffer@, self.buffer_pos as int) == Err::<int, Seq<char>>(end_of_data()));
                        return Err(e);
                    },
                };
            }
            let attribute = next_byte;
            proof {
                assert(skip_fcws(self.data_buffer@, self.buffer_pos - 1) == Ok::<int, Seq<char>>(self.buffer_pos - 1));
            }
            self.display.add_char(attribute);
            let _len1 = match self.get_byte() {
                Ok(b) => b,
                Err(e) => {
                    return Err(e);
                },
            };
            let _len2 = match self.get_byte() {
                Ok(b) => b,
                Err(e) => {
                    return Err(e);
                },
            };
        } else {
            let attribute = first_byte;
            self.display.add_char(attribute);
            let _len1 = match self.get_byte() {
                Ok(b) => b,
                Err(e) => {
                    return Err(e);
                },
            };
            let _len2 = match self.get_byte() {
                Ok(b) => b,
                Err(e) => {
                    return Err(e);
                },
            };
        }
        Ok(())
    }

    /// Repeat to Address (see `repeat_to_address`).
    fn repeat_to_address(&mut self) -> (r: Result<(), String>)
        requires
            old(self).wf(),
        ensures
            old(self).step_done(final(self), repeat_to_address(old(self).data_buffer@, old(self).buffer_pos as int, old(self).model().display), r),
    {
        let end_row_byte = match self.get_byte() {
            Ok(b) => b,
            Err(e) => {
                return Err(e);
            },
        };
        let end_col_byte = match self.get_byte() {
            Ok(b) => b,
            Err(e) => {
                return Err(e);
            },
        };
        let repeat_char = match self.get_byte() {
            Ok(b) => b,
            Err(e) => {
                return Err(e);
            },
        };
        let end_row: usize = if end_row_byte == 0 { 0 } else { (end_row_byte - 1) as usize };
        let end_col: usize = if end_col_byte == 0 { 0 } else { (end_col_byte - 1) as usize };
        proof {
            self.display.lemma_model();
        }
        let start_row = self.display.cursor_row();
        let start_col = self.display.cursor_col();
        let width = self.display.width();
        let height = self.display.height();
        let end_row = if end_row < height - 1 { end_row } else { height - 1 };
        let end_col = if end_col < width - 1 { end_col } else { width - 1 };
        proof {
            assert(start_row * width + start_col < 27 * 132) by (nonlinear_arith)
                requires start_row < height, start_col < width, width <= 132, height <= 27;
            assert(end_row * width + end_col < 27 * 132) by (nonlinear_arith)
                requires end_row < height, end_col < width, width <= 132, height <= 27;
            assert(width * height <= 27 * 132) by (nonlinear_arith)
                requires width <= 132, height <= 27;
            assert(start_row * width + start_col < width * height) by (nonlinear_arith)
                requires start_row < height, start_col < width;
        }
        let start_index = start_row * width + start_col;
        let end_index = end_row * width + end_col;
        let total_positions = width * height;
        let count = if end_index >= start_index {
            end_index - start_index + 1
        } else {
            (total_positions - start_index) + (end_index + 1)
        };
        let ghost m0 = self.display.model();
        let ghost s0 = self.model();
        let mut k: usize = 0;
        while k < count
            invariant
                old(self).same_context(self),
                self.buffer_pos == old(self).buffer_pos + 3,
                self.wf(),
                s0 == old(self).model(),
                m0 == s0.display,
                k <= count,
                self.model() == (SessionModel { display: addch_n(m0, repeat_char, k as nat), ..s0 }),
            decreases count - k,
        {
            self.display.add_char(repeat_char);
            k = k + 1;
        }
        Ok(())
    }

    /// Erase to Address (see `erase_to_address`).
    fn erase_to_address(&mut self) -> (r: Result<(), String>)
        requires
            old(self).wf(),
        ensures
            old(self).step_done(final(self), erase_to_address(old(self).data_buffer@, old(self).buffer_pos as int, old(self).model().display), r),
    {
        let ghost p = self.buffer_pos as int;
        let ghost buf = self.data_buffer@;
        let end_row = match self.get_byte() {
            Ok(b) => b,
            Err(e) => {
                return Err(e);
            },
        };
        let end_col = match self.get_byte() {
            Ok(b) => b,
            Err(e) => {
                return Err(e);
            },
        };
        let attr_count = match self.get_byte() {
            Ok(b) => b,
            Err(e) => {
                return Err(e);
            },
        };
        let mut hit = false;
        let mut k: u8 = 0;
        while k < attr_count
            invariant
                old(self).same_context(self),
                self.model() == old(self).model(),
                self.display == old(self).display,
                old(self).wf(),
                buf == self.data_buffer@,
                p == old(self).buffer_pos,
                p + 2 < buf.len(),
                attr_count == buf[p + 2],
                end_row == buf[p],
                end_col == buf[p + 1],
                k <= attr_count,
                self.buffer_pos == p + 3 + k,
                self.buffer_pos <= buf.len(),
                hit == (buf.subrange(p + 3, p + 3 + k).contains(0) || buf.subrange(p + 3, p + 3 + k).contains(1)),
            decreases attr_count - k,
        {
            let a = match self.get_byte() {
                Ok(b) => b,
                Err(e) => {
                    return Err(e);
                },
            };
            proof {
                let s1 = buf.subrange(p + 3, p + 3 + k);
                let s2 = buf.subrange(p + 3, p + 3 + k + 1);
                assert(s2 =~= s1.push(a));
                assert(s2.contains(0) <==> s1.contains(0) || a == 0) by {
                    if s2.contains(0) && !s1.contains(0) {
                        let j = choose|j: int| 0 <= j < s2.len() && s2[j] == 0;
                        assert(j == s1.len());
                    }
                    if a == 0 {
                        assert(s2[s1.len() as int] == 0);
                    }
                    if s1.contains(0) {
                        let j = choose|j: int| 0 <= j < s1.len() && s1[j] == 0;
                        assert(s2[j] == 0);
                    }
                }
                assert(s2.contains(1) <==> s1.contains(1) || a == 1) by {
                    if s2.contains(1) && !s1.contains(1) {
                        let j = choose|j: int| 0 <= j < s2.len() && s2[j] == 1;
                        assert(j == s1.len());
                    }
                    if a == 1 {
                        assert(s2[s1.len() as int] == 1);
                    }
                    if s1.contains(1) {
                        let j = choose|j: int| 0 <= j < s1.len() && s1[j] == 1;
                        assert(s2[j] == 1);
                    }
                }
            }
            if a == 0 || a == 1 {
                hit = true;
            }
            k = k + 1;
        }
        proof {
            let attrs = buf.subrange(p + 3, p + 3 + buf[p + 2]);
            assert(hit == (attrs.contains(0) || attrs.contains(1)));
            assert(erase_to_address(buf, p, old(self).model().display).1 == Ok::<int, Seq<char>>(p + 3 + buf[p + 2]));
        }
        if hit {
            proof {
                self.display.lemma_model();
            }
            let start_row = self.display.cursor_row();
            let start_col = self.display.cursor_col();
            let er: usize = if end_row == 0 { 0 } else { (end_row - 1) as usize };
            let ec: usize = if end_col == 0 { 0 } else { (end_col - 1) as usize };
            let width = self.display.width();
            proof {
                assert(start_row * width + start_col < 27 * 132) by (nonlinear_arith)
                    requires start_row < 27, start_col < width, width <= 132;
                assert(er * width + ec <= 255 * 132 + 255) by (nonlinear_arith)
                    requires er <= 255, ec <= 255, width <= 132;
            }
            self.display.erase_region(start_row, start_col, er, ec, 0, width);
        }
        Ok(())
    }

    /// Start of Header (see `start_of_header`).
    fn start_of_header(&mut self) -> (r: Result<(), String>)
        requires
            old(self).wf(),
        ensures
            old(self).step_done(final(self), start_of_header(old(self).data_buffer@, old(self).buffer_pos as int, old(self).model().display), r),
    {
        let ghost p = self.buffer_pos as int;
        let ghost buf = self.data_buffer@;
        let length = match self.get_byte() {
            Ok(b) => b,
            Err(e) => {
                return Err(e);
            },
        };
        if length > 7 {
            let msg = crate::text::string_concat(crate::text::str_to_string("Invalid SOH length: "), crate::text::decimal_string(length as u64).as_str());
            return Err(msg);
        }
        let mut k: u8 = 0;
        while k < length
            invariant
                old(self).same_context(self),
                self.model() == old(self).model(),
                self.display == old(self).display,
                old(self).wf(),
                buf == self.data_buffer@,
                p == old(self).buffer_pos,
                p < buf.len(),
                length == buf[p],
                length <= 7,
                k <= length,
                self.buffer_pos == p + 1 + k,
                self.buffer_pos <= buf.len(),
            decreases length - k,
        {
            match self.get_byte() {
                Ok(_) => {},
                Err(e) => {
                    return Err(e);
                },
            }
            k = k + 1;
        }
        self.parse_and_set_header_data(length);
        Ok(())
    }

    /// Apply a header of `length` bytes: a non-empty header resets the
    /// field formatting and locks the keyboard.
    fn parse_and_set_header_data(&mut self, length: u8)
        requires
            old(self).wf(),
        ensures
            final(self).wf(),
            old(self).same_context(final(self)),
            final(self).buffer_pos == old(self).buffer_pos,
            final(self).model() == (SessionModel {
                display: if length == 0 { old(self).model().display } else { old(self).model().display.clear_format_table().set_locked(true) },
                ..old(self).model()
            }),
    {
        if length == 0 {
            return;
        }
        self.display.clear_format_table();
        self.display.lock_keyboard();
    }

    /// One order or character of a Write to Display; `order` was just read.
    fn write_order(&mut self, order: u8) -> (r: Result<(), String>)
        requires
            old(self).wf(),
            0 < old(self).buffer_pos <= old(self).data_buffer@.len(),
            old(self).data_buffer@[old(self).buffer_pos - 1] == order,
            order != ESC,
        ensures
            old(self).step_done(final(self), order_step(old(self).data_buffer@, old(self).buffer_pos - 1, old(self).model().display), r),
    {
        if order == SBA {
            let row = match self.get_byte() {
                Ok(b) => b,
                Err(e) => {
                    return Err(e);
                },
            };
            let col = match self.get_byte() {
                Ok(b) => b,
                Err(e) => {
                    return Err(e);
                },
            };
            let row: u8 = if row == 0 { 255 } else { row - 1 };
            let col: u8 = if col == 0 { 255 } else { col - 1 };
            self.display.set_cursor(row as usize, col as usize);
            Ok(())
        } else if order == SF {
            self.start_of_field()
        } else if order == IC {
            let row = match self.get_byte() {
                Ok(b) => b,
                Err(e) => {
                    return Err(e);
                },
            };
            let col = match self.get_byte() {
                Ok(b) => b,
                Err(e) => {
                    return Err(e);
                },
            };
            let row: u8 = if row == 0 { 255 } else { row - 1 };
            let col: u8 = if col == 0 { 255 } else { col - 1 };
            self.display.set_pending_insert_cursor(row as usize, col as usize);
            Ok(())
        } else if order == RA {
            self.repeat_to_address()
        } else if order == EA {
            self.erase_to_address()
        } else if order == SOH {
            self.start_of_header()
        } else if self.is_printable_char(order) {
            self.display.add_char(order);
            Ok(())
        } else {
            let msg = crate::text::string_concat(crate::text::str_to_string("Unknown order: 0x"), crate::text::hex_byte_string(order).as_str());
            Err(msg)
        }
    }

    /// Write to Display (see `write_to_display`).
    fn write_to_display(&mut self) -> (r: Result<(), String>)
        requires
            old(self).wf(),
        ensures
            old(self).step_done(final(self), write_to_display(old(self).data_buffer@, old(self).buffer_pos as int, old(self).model().display), r),
    {
        let ghost buf = self.data_buffer@;
        let ghost p0 = self.buffer_pos as int;
        let cc1 = match self.get_byte() {
            Ok(b) => b,
            Err(e) => {
                return Err(e);
            },
        };
        let cc2 = match self.get_byte() {
            Ok(b) => b,
            Err(e) => {
                return Err(e);
            },
        };
        self.handle_cc1(cc1);
        let ghost target = wtd_orders(buf, p0 + 2, apply_cc1(old(self).model().display, cc1));
        let ghost s0 = old(self).model();
        let mut done = false;
        while !done && self.buffer_pos < self.data_buffer.len()
            invariant
                old(self).same_context(self),
                buf == self.data_buffer@,
                self.wf(),
                s0 == old(self).model(),
                p0 + 1 < buf.len(),
                p0 == old(self).buffer_pos,
                cc1 == buf[p0],
                cc2 == buf[p0 + 1],
                target == wtd_orders(buf, p0 + 2, apply_cc1(s0.display, cc1)),
                self.buffer_pos <= buf.len(),
                self.model() == (SessionModel { display: self.model().display, ..s0 }),
                wtd_orders(buf, self.buffer_pos as int, self.model().display) == target,
                done ==> target == (self.model().display, Ok::<int, Seq<char>>(self.buffer_pos as int)),
            decreases buf.len() - self.buffer_pos, if done { 0int } else { 1int },
        {
            let ghost pos = self.buffer_pos as int;
            let ghost cur = self.model().display;
            let order = match self.get_byte() {
                Ok(b) => b,
                Err(e) => {
                    return Err(e);
                },
            };
            if order == ESC {
                self.buffer_pos = self.buffer_pos - 1;
                done = true;
            } else {
                proof {
                    lemma_order_step_advances(buf, pos, cur);
                }
                match self.write_order(order) {
                    Ok(()) => {},
                    Err(e) => {
                        return Err(e);
                    },
                }
            }
        }
        self.handle_cc2(cc2);
        Ok(())
    }

    /// Clear Unit: a blank 24 x 80 display; no read is pending.
    fn clear_unit(&mut self)
        requires
            old(self).wf(),
        ensures
            final(self).wf(),
            old(self).same_context(final(self)),
            final(self).buffer_pos == old(self).buffer_pos,
            final(self).model() == (SessionModel {
                display: old(self).model().display.clear_to(80, 24, clear_unit_indicators(), false),
                read_opcode: 0,
                ..old(self).model()
            }),
    {
        self.display.clear_unit();
        self.read_opcode = 0;
    }

    /// Clear Unit Alternate: a parameter byte (0x00 or 0x80), then a blank
    /// 27 x 132 display; no read is pending.
    fn clear_unit_alternate(&mut self) -> (r: Result<(), String>)
        requires
            old(self).wf(),
        ensures
            old(self).command_done(final(self), command_step(old(self).data_buffer@, old(self).buffer_pos as int, CMD_CLEAR_UNIT_ALTERNATE, old(self).model(), old(self).enhanced), no_reply(r)),
    {
        let param = match self.get_byte() {
            Ok(b) => b,
            Err(e) => {
                return Err(e);
            },
        };
        if param != 0x00 && param != 0x80 {
            let msg = crate::text::string_concat(
                crate::text::str_to_string("Invalid Clear Unit Alternate parameter: 0x"),
                crate::text::hex_byte_string(param).as_str(),
            );
            return Err(msg);
        }
        self.display.clear_unit_alternate();
        self.read_opcode = 0;
        Ok(())
    }

    /// Clear Format Table: every attribute back to normal; no read is
    /// pending.
    fn clear_format_table(&mut self)
        requires
            old(self).wf(),
        ensures
            final(self).wf(),
            old(self).same_context(final(self)),
            final(self).buffer_pos == old(self).buffer_pos,
            final(self).model() == (SessionModel { display: old(self).model().display.clear_format_table(), read_opcode: 0, ..old(self).model() }),
    {
        self.display.clear_format_table();
        self.read_opcode = 0;
    }

    /// Write Error Code (see `write_error_code`).
    fn write_error_code(&mut self, command: u8) -> (r: Result<(), String>)
        requires
            old(self).wf(),
        ensures
            old(self).step_done(final(self), write_error_code(old(self).data_buffer@, old(self).buffer_pos as int, command, old(self).model().display), r),
    {
        let ghost buf = self.data_buffer@;
        let ghost p0 = self.buffer_pos as int;
        if command == CMD_WRITE_ERROR_CODE_WINDOW {
            match self.get_byte() {
                Ok(_) => {},
                Err(e) => {
                    return Err(e);
                },
            }
            match self.get_byte() {
                Ok(_) => {},
                Err(e) => {
                    return Err(e);
                },
            }
        }
        let ghost q = self.buffer_pos as int;
        let mut message: Vec<u8> = Vec::new();
        let mut done = false;
        while !done && self.buffer_pos < self.data_buffer.len()
            invariant
                old(self).same_context(self),
                self.model() == old(self).model(),
                self.display == old(self).display,
                old(self).wf(),
                buf == self.data_buffer@,
                q == if command == CMD_WRITE_ERROR_CODE_WINDOW { p0 + 2 } else { p0 },
                p0 == old(self).buffer_pos,
                q <= self.buffer_pos <= buf.len(),
                message@ == buf.subrange(q, self.buffer_pos as int),
                message_end(buf, self.buffer_pos as int) == message_end(buf, q),
                done ==> self.buffer_pos < buf.len() && buf[self.buffer_pos as int] == ESC,
            decreases buf.len() - self.buffer_pos, if done { 0int } else { 1int },
        {
            let byte = match self.get_byte() {
                Ok(b) => b,
                Err(e) => {
                    return Err(e);
                },
            };
            if byte == ESC {
                self.buffer_pos = self.buffer_pos - 1;
                done = true;
            } else {
                message.push(byte);
                proof {
                    assert(message@ =~= buf.subrange(q, self.buffer_pos as int));
                }
            }
        }
        assert(self.buffer_pos as int == message_end(buf, q));
        proof {
            self.display.lemma_model();
        }
        self.display.erase_region(23, 0, 23, 79, 0, 79);
        self.display.set_cursor(23, 0);
        let ghost m1 = self.model().display;
        let mut i: usize = 0;
        while i < message.len()
            invariant
                old(self).same_context(self),
                self.wf(),
                self.buffer_pos as int == message_end(buf, q),
                self.model() == (SessionModel { display: addch_seq(m1, message@.subrange(0, i as int)), ..old(self).model() }),
                i <= message@.len(),
            decreases message@.len() - i,
        {
            proof {
                assert(message@.subrange(0, i as int + 1).drop_last() =~= message@.subrange(0, i as int));
            }
            self.display.add_char(message[i]);
            i = i + 1;
        }
        assert(message@.subrange(0, i as int) =~= message@);
        Ok(())
    }

    /// A read command (see `read_command`).
    fn read_command(&mut self, command: u8) -> (r: Result<(), String>)
        requires
            old(self).wf(),
        ensures
            old(self).command_done(final(self), read_command(old(self).data_buffer@, old(self).buffer_pos as int, command, old(self).model()), no_reply(r)),
    {
        let cc1 = match self.get_byte() {
            Ok(b) => b,
            Err(e) => {
                return Err(e);
            },
        };
        let cc2 = match self.get_byte() {
            Ok(b) => b,
            Err(e) => {
                return Err(e);
            },
        };
        self.handle_cc1(cc1);
        self.handle_cc2(cc2);
        self.display.unlock_keyboard();
        self.read_opcode = command;
        Ok(())
    }

    /// Read Screen Immediate: the EBCDIC code of every screen position.
    fn read_screen_immediate(&mut self) -> (r: Result<Vec<u8>, String>)
        requires
            old(self).wf(),
        ensures
            *final(self) == *old(self),
            r matches Ok(v) && v@ == screen_bytes(old(self).model().display),
    {
        proof {
            self.display.lemma_model();
        }
        let screen_data = self.display.get_screen_data();
        Ok(screen_data)
    }

    /// Read Immediate: the cursor (from 1) and a null attention code.
    fn read_immediate(&mut self) -> (r: Result<Vec<u8>, String>)
        requires
            old(self).wf(),
        ensures
            *final(self) == *old(self),
            r matches Ok(v) && v@ == seq![(old(self).model().display.row + 1) as u8, (old(self).model().display.col + 1) as u8, 0x00u8],
    {
        let old_opcode = self.read_opcode;
        self.read_opcode = CMD_READ_IMMEDIATE;
        proof {
            self.display.lemma_model();
        }
        let row = self.display.cursor_row();
        let col = self.display.cursor_col();
        let response = vec![(row + 1) as u8, (col + 1) as u8, 0x00u8];
        self.read_opcode = old_opcode;
        Ok(response)
    }

    /// Append the orders that recreate the screen (see `screen_orders`).
    fn generate_screen_display_orders(&self, data: &mut Vec<u8>) -> (r: Result<(), String>)
        requires
            self.wf(),
        ensures
            r is Ok,
            final(data)@ == old(data)@ + screen_orders(
                screen_bytes(self.model().display),
                self.model().display.width as int,
                screen_bytes(self.model().display).len() as int,
            ),
    {
        proof {
            self.display.lemma_model();
        }
        let screen_data = self.display.get_screen_data();
        let width = self.display.width();
        let height = self.display.height();
        let ghost sd = screen_data@;
        let ghost w = width as int;
        assert(sd == screen_bytes(self.model().display));
        assert(sd.len() == width * height);
        let mut row: usize = 0;
        while row < height
            invariant
                self.wf(),
                sd == screen_data@,
                sd == screen_bytes(self.model().display),
                w == width,
                width == self.model().display.width,
                height == self.model().display.height,
                sd.len() == width * height,
                0 < width <= 132,
                height <= 27,
                row <= height,
                data@ == old(data)@ + screen_orders(sd, w, row * w),
            decreases height - row,
        {
            let mut col: usize = 0;
            while col < width
                invariant
                    self.wf(),
                    sd == screen_data@,
                    w == width,
                    sd.len() == width * height,
                    0 < width <= 132,
                    height <= 27,
                    row < height,
                    col <= width,
                    data@ == old(data)@ + screen_orders(sd, w, row * w + col),
                decreases width - col,
            {
                proof {
                    assert(row * width + col < width * height) by (nonlinear_arith)
                        requires row < height, col < width;
                    assert(row * width + col < 27 * 132) by (nonlinear_arith)
                        requires row < height, height <= 27, col < width, width <= 132;
                    lemma_index_row_col(row as int, col as int, w);
                }
                let index = row * width + col;
                let ch = screen_data[index];
                if ch != 0x00 {
                    data.push(SBA);
                    data.push((row + 1) as u8);
                    data.push((col + 1) as u8);
                    data.push(ch);
                }
                proof {
                    let n = row * w + col + 1;
                    assert(screen_orders(sd, w, n) == screen_orders(sd, w, n - 1) + if sd[n - 1] != 0 {
                        seq![SBA, ((n - 1) / w + 1) as u8, ((n - 1) % w + 1) as u8, sd[n - 1]]
                    } else {
                        Seq::<u8>::empty()
                    });
                    assert(data@ =~= old(data)@ + screen_orders(sd, w, n));
                }
                col = col + 1;
            }
            assert((row + 1) * w == row * w + w) by (nonlinear_arith);
            row = row + 1;
        }
        assert(row * w == sd.len()) by (nonlinear_arith)
            requires row == height, sd.len() == width * height, w == width;
        Ok(())
    }

    /// Save Screen (see `save_screen_reply`).
    fn save_screen(&mut self) -> (r: Result<Vec<u8>, String>)
        requires
            old(self).wf(),
        ensures
            old(self).same_context(final(self)),
            final(self).wf(),
            final(self).buffer_pos == old(self).buffer_pos,
            final(self).model() == (SessionModel { sequence_number: wrap_inc(old(self).sequence_number), ..old(self).model() }),
            r matches Ok(v) && v@ == save_screen_reply(old(self).model()),
    {
        let mut data: Vec<u8> = Vec::new();
        data.push(ESC);
        data.push(CMD_WRITE_TO_DISPLAY);
        data.push(self.sequence_number);
        self.sequence_number = if self.sequence_number == 255 { 0 } else { self.sequence_number + 1 };
        let length_pos = data.len();
        data.push(0x00);
        data.push(0x00);
        data.push(0x00);
        data.push(0xC0);
        data.push(0x02);
        let ghost head = data@;
        match self.generate_screen_display_orders(&mut data) {
            Ok(()) => {},
            Err(e) => {
                return Err(e);
            },
        }
        let ghost sd = screen_bytes(old(self).model().display);
        let ghost orders = screen_orders(sd, old(self).model().display.width as int, sd.len() as int);
        proof {
            lemma_screen_orders_len(sd, old(self).model().display.width as int, sd.len() as int);
            self.display.lemma_model();
            assert(sd.len() <= 132 * 27) by (nonlinear_arith)
                requires sd.len() == self.model().display.width * self.model().display.height,
                    self.model().display.width <= 132, self.model().display.height <= 27;
        }
        let length = data.len() - length_pos - 2;
        data.set(length_pos, (length / 256) as u8);
        data.set(length_pos + 1, (length % 256) as u8);
        if self.read_opcode != 0 {
            data.push(ESC);
            data.push(self.read_opcode);
            data.push(0x00);
            data.push(0x00);
        }
        proof {
            assert(data@ =~= save_screen_reply(old(self).model()));
        }
        Ok(data)
    }

    /// Save Partial Screen: five region bytes, then the whole screen is
    /// saved.
    fn save_partial_screen(&mut self) -> (r: Result<Vec<u8>, String>)
        requires
            old(self).wf(),
        ensures
            old(self).command_done(final(self), command_step(old(self).data_buffer@, old(self).buffer_pos as int, CMD_SAVE_PARTIAL_SCREEN, old(self).model(), old(self).enhanced), some_reply(r)),
    {
        let mut k: usize = 0;
        while k < 5
            invariant
                old(self).same_context(self),
                self.model() == old(self).model(),
                self.display == old(self).display,
                old(self).wf(),
                k <= 5,
                self.buffer_pos == old(self).buffer_pos + k,
                self.buffer_pos <= self.data_buffer@.len(),
            decreases 5 - k,
        {
            match self.get_byte() {
                Ok(_) => {},
                Err(e) => {
                    return Err(e);
                },
            }
            k = k + 1;
        }
        self.save_screen()
    }

    /// Roll (see `roll_step`).
    fn roll(&mut self) -> (r: Result<(), String>)
        requires
            old(self).wf(),
        ensures
            old(self).step_done(final(self), roll_step(old(self).data_buffer@, old(self).buffer_pos as int, old(self).model().display), r),
    {
        let direction = match self.get_byte() {
            Ok(b) => b,
            Err(e) => {
                return Err(e);
            },
        };
        let top = match self.get_byte() {
            Ok(b) => b,
            Err(e) => {
                return Err(e);
            },
        };
        let bottom = match self.get_byte() {
            Ok(b) => b,
            Err(e) => {
                return Err(e);
            },
        };
        assert(direction & 0x1F <= 31) by (bit_vector);
        let count = (direction & 0x1F) as i8;
        let lines: i8 = if (direction & 0x80) == 0 { -count } else { count };
        if lines != 0 {
            let top: u8 = if top == 0 { 255 } else { top - 1 };
            let bottom: u8 = if bottom == 0 { 255 } else { bottom - 1 };
            self.display.roll(top, bottom, lines);
        }
        Ok(())
    }

    /// The Query Reply (see `query_reply`).
    fn create_query_reply(&self) -> (r: Result<Vec<u8>, String>)
        ensures
            r matches Ok(v) && v@ == query_reply(self.enhanced),
    {
        let mut response: Vec<u8> = vec![
            0x00u8, 0x00, 0x88, 0x00, if self.enhanced { 0x40 } else { 0x3A }, 0xD9, 0x70, 0x80, 0x06, 0x00, 0x01, 0x01, 0x00,
        ];
        let mut k: usize = 0;
        while k < 16
            invariant
                k <= 16,
                response@.len() == 13 + k,
                forall|i: int| 13 <= i < 13 + k ==> response@[i] == 0x00u8,
                response@.subrange(0, 13) == seq![
                    0x00u8, 0x00, 0x88, 0x00, if self.enhanced { 0x40 } else { 0x3A }, 0xD9, 0x70, 0x80, 0x06, 0x00, 0x01, 0x01, 0x00
                ],
            decreases 16 - k,
        {
            let ghost before = response@;
            response.push(0x00);
            proof {
                assert(response@.subrange(0, 13) =~= before.subrange(0, 13));
            }
            k = k + 1;
        }
        let mut tail: Vec<u8> = vec![
            0x01u8, 0x35, 0x35, 0x35, 0x35, 0x43, 0x30, 0x31, 0x02, 0x00, 0x00, 0x00, 0x61, 0x50, 0x00, 0xFF, 0xFF, 0x00, 0x00,
            0x00, 0x23, 0x31, 0x00, 0x00, if self.enhanced { 0x02 } else { 0x00 }, if self.enhanced { 0x80 } else { 0x00 },
        ];
        let ghost before_tail = response@;
        response.append(&mut tail);
        let target: usize = if self.enhanced { 67 } else { 61 };
        let ghost head = response@;
        while response.len() < target
            invariant
                55 <= response@.len() <= target,
                target == if self.enhanced { 67usize } else { 61usize },
                response@.subrange(0, 55) == head,
                head.len() == 55,
                forall|i: int| 55 <= i < response@.len() ==> response@[i] == 0x00u8,
            decreases target - response@.len(),
        {
            let ghost before = response@;
            response.push(0x00);
            proof {
                assert(response@.subrange(0, 55) =~= before.subrange(0, 55));
            }
        }
        proof {
            assert(before_tail =~= seq![
                0x00u8, 0x00, 0x88, 0x00, if self.enhanced { 0x40 } else { 0x3A }, 0xD9, 0x70, 0x80, 0x06, 0x00, 0x01, 0x01, 0x00
            ] + Seq::new(16, |i: int| 0x00u8));
            assert(response@ =~= query_reply(self.enhanced));
        }
        Ok(response)
    }

    /// The Set Reply Mode answer to a Query Command.
    fn create_set_reply_mode_response(&self) -> (r: Result<Vec<u8>, String>)
        ensures
            r matches Ok(v) && v@ == set_reply_mode_reply(),
    {
        let mut response: Vec<u8> = Vec::new();
        response.push(SF_SET_REPLY_MODE);
        let mut rest: Vec<u8> = vec![0x00u8, 0x01, 0x00, 0x50, 0x00, 0x18];
        response.append(&mut rest);
        assert(response@ =~= set_reply_mode_reply());
        Ok(response)
    }

    /// Erase/Reset: an optional reset type; types 0x00 and 0x01 (and none)
    /// clear the screen and home the cursor. No read stays pending and the
    /// session is no longer invited.
    fn handle_erase_reset(&mut self) -> (r: Result<Vec<u8>, String>)
        requires
            old(self).wf(),
        ensures
            old(self).same_context(final(self)),
            final(self).wf(),
            r matches Ok(v) && v@ == Seq::<u8>::empty(),
            ({
                let buf = old(self).data_buffer@;
                let q = old(self).buffer_pos as int;
                let clears = q >= buf.len() || buf[q] == 0x00 || buf[q] == 0x01;
                let s = old(self).model();
                &&& final(self).model() == (SessionModel {
                    display: if clears { s.display.screen_clear().set_cursor(0, 0) } else { s.display },
                    read_opcode: 0,
                    invited: false,
                    ..s
                })
                &&& final(self).buffer_pos == if q < buf.len() { q + 1 } else { q }
            }),
    {
        let mut clears = true;
        if self.buffer_pos < self.data_buffer.len() {
            let reset_type = match self.get_byte() {
                Ok(b) => b,
                Err(e) => {
                    return Err(e);
                },
            };
            clears = reset_type == 0x00 || reset_type == 0x01;
        }
        if clears {
            proof {
                self.display.lemma_model();
            }
            let ghost before = self.model().display;
            let screen = self.display.screen();
            screen.clear();
            proof {
                assert(self.model().display.cells =~= before.screen_clear().cells);
                assert(self.model().display == before.screen_clear());
            }
            self.display.set_cursor(0, 0);
        }
        self.read_opcode = 0;
        self.invited = false;
        Ok(Vec::new())
    }

    /// Define Pending Operations: the rest of the data is consumed.
    fn handle_define_pending_operations(&mut self) -> (r: Result<Vec<u8>, String>)
        requires
            old(self).wf(),
        ensures
            old(self).same_context(final(self)),
            final(self).wf(),
            final(self).model() == old(self).model(),
            final(self).buffer_pos == final(self).data_buffer@.len(),
            r matches Ok(v) && v@ == Seq::<u8>::empty(),
    {
        while self.buffer_pos < self.data_buffer.len()
            invariant
                old(self).same_context(self),
                self.model() == old(self).model(),
                self.display == old(self).display,
                old(self).wf(),
                self.buffer_pos <= self.data_buffer@.len(),
            decreases self.data_buffer@.len() - self.buffer_pos,
        {
            match self.get_byte() {
                Ok(_) => {},
                Err(e) => {
                    return Err(e);
                },
            }
        }
        Ok(Vec::new())
    }

    /// A structured field with one optional parameter byte, which is
    /// consumed.
    fn skip_optional_parameter(&mut self) -> (r: Result<Vec<u8>, String>)
        requires
            old(self).wf(),
        ensures
            old(self).same_context(final(self)),
            final(self).wf(),
            final(self).model() == old(self).model(),
            final(self).buffer_pos == if old(self).buffer_pos < old(self).data_buffer@.len() {
                old(self).buffer_pos + 1
            } else {
                old(self).buffer_pos as int
            },
            r matches Ok(v) && v@ == Seq::<u8>::empty(),
    {
        if self.buffer_pos < self.data_buffer.len() {
            match self.get_byte() {
                Ok(_) => {},
                Err(e) => {
                    return Err(e);
                },
            }
        }
        Ok(Vec::new())
    }

    /// Enable Command Recognition: one optional flag byte.
    fn handle_enable_command_recognition(&mut self) -> (r: Result<Vec<u8>, String>)
        requires
            old(self).wf(),
        ensures
            old(self).same_context(final(self)),
            final(self).wf(),
            final(self).model() == old(self).model(),
            final(self).buffer_pos == if old(self).buffer_pos < old(self).data_buffer@.len() {
                old(self).buffer_pos + 1
            } else {
                old(self).buffer_pos as int
            },
            r matches Ok(v) && v@ == Seq::<u8>::empty(),
    {
        self.skip_optional_parameter()
    }

    /// Define Roll Direction: one optional direction byte.
    fn handle_define_roll_direction(&mut self) -> (r: Result<Vec<u8>, String>)
        requires
            old(self).wf(),
        ensures
            old(self).same_context(final(self)),
            final(self).wf(),
            final(self).model() == old(self).model(),
            final(self).buffer_pos == if old(self).buffer_pos < old(self).data_buffer@.len() {
                old(self).buffer_pos + 1
            } else {
                old(self).buffer_pos as int
            },
            r matches Ok(v) && v@ == Seq::<u8>::empty(),
    {
        self.skip_optional_parameter()
    }

    /// Set Monitor Mode: one optional mode byte.
    fn handle_set_monitor_mode(&mut self) -> (r: Result<Vec<u8>, String>)
        requires
            old(self).wf(),
        ensures
            old(self).same_context(final(self)),
            final(self).wf(),
            final(self).model() == old(self).model(),
            final(self).buffer_pos == if old(self).buffer_pos < old(self).data_buffer@.len() {
                old(self).buffer_pos + 1
            } else {
                old(self).buffer_pos as int
            },
            r matches Ok(v) && v@ == Seq::<u8>::empty(),
    {
        self.skip_optional_parameter()
    }

    /// Write Structured Field (see `structured_field`).
    fn write_structured_field(&mut self) -> (r: Result<Vec<u8>, String>)
        requires
            old(self).wf(),
        ensures
            old(self).command_done(final(self), structured_field(old(self).data_buffer@, old(self).buffer_pos as int, old(self).model(), old(self).enhanced), some_reply(r)),
    {
        match self.get_byte() {
            Ok(_) => {},
            Err(e) => {
                return Err(e);
            },
        }
        match self.get_byte() {
            Ok(_) => {},
            Err(e) => {
                return Err(e);
            },
        }
        let class = match self.get_byte() {
            Ok(b) => b,
            Err(e) => {
                return Err(e);
            },
        };
        let sf_type = match self.get_byte() {
            Ok(b) => b,
            Err(e) => {
                return Err(e);
            },
        };
        if class != 0xD9 {
            let msg = crate::text::string_concat(crate::text::str_to_string("Invalid SF class: 0x"), crate::text::hex_byte_string(class).as_str());
            return Err(msg);
        }
        if sf_type == SF_5250_QUERY || sf_type == SF_5250_QUERY_STATION_STATE {
            self.handshake_state = HandshakeState::QueryReplyReceived;
            self.create_query_reply()
        } else if sf_type == SF_QUERY_COMMAND {
            self.create_set_reply_mode_response()
        } else if sf_type == SF_ERASE_RESET {
            self.handle_erase_reset()
        } else if sf_type == SF_DEFINE_PENDING_OPERATIONS {
            self.handle_define_pending_operations()
        } else if sf_type == SF_ENABLE_COMMAND_RECOGNITION {
            self.handle_enable_command_recognition()
        } else if sf_type == SF_DEFINE_ROLL_DIRECTION {
            self.handle_define_roll_direction()
        } else if sf_type == SF_SET_MONITOR_MODE {
            self.handle_set_monitor_mode()
        } else {
            Ok(Vec::new())
        }
    }

    /// One command whose parameters follow in the data (see
    /// `command_step`).
    fn process_command(&mut self, command: u8) -> (r: Result<Option<Vec<u8>>, String>)
        requires
            old(self).wf(),
        ensures
            old(self).command_done(final(self), command_step(old(self).data_buffer@, old(self).buffer_pos as int, command, old(self).model(), old(self).enhanced), r),
    {
        if command == CMD_CLEAR_UNIT {
            self.clear_unit();
            Ok(None)
        } else if command == CMD_CLEAR_UNIT_ALTERNATE {
            match self.clear_unit_alternate() {
                Ok(()) => Ok(None),
                Err(e) => Err(e),
            }
        } else if command == CMD_CLEAR_FORMAT_TABLE {
            self.clear_format_table();
            Ok(None)
        } else if command == CMD_WRITE_TO_DISPLAY {
            match self.write_to_display() {
                Ok(()) => Ok(None),
                Err(e) => Err(e),
            }
        } else if command == CMD_WRITE_ERROR_CODE || command == CMD_WRITE_ERROR_CODE_WINDOW {
            match self.write_error_code(command) {
                Ok(()) => Ok(None),
                Err(e) => Err(e),
            }
        } else if command == CMD_READ_INPUT_FIELDS || command == CMD_READ_MDT_FIELDS || command == CMD_READ_MDT_FIELDS_ALT {
            match self.read_command(command) {
                Ok(()) => Ok(None),
                Err(e) => Err(e),
            }
        } else if command == CMD_READ_SCREEN_IMMEDIATE {
            match self.read_screen_immediate() {
                Ok(v) => Ok(Some(v)),
                Err(e) => Err(e),
            }
        } else if command == CMD_READ_IMMEDIATE {
            match self.read_immediate() {
                Ok(v) => Ok(Some(v)),
                Err(e) => Err(e),
            }
        } else if command == CMD_SAVE_SCREEN {
            match self.save_screen() {
                Ok(v) => Ok(Some(v)),
                Err(e) => Err(e),
            }
        } else if command == CMD_SAVE_PARTIAL_SCREEN {
            match self.save_partial_screen() {
                Ok(v) => Ok(Some(v)),
                Err(e) => Err(e),
            }
        } else if command == CMD_RESTORE_SCREEN || command == CMD_RESTORE_PARTIAL_SCREEN {
            Ok(None)
        } else if command == CMD_ROLL {
            match self.roll() {
                Ok(()) => Ok(None),
                Err(e) => Err(e),
            }
        } else if command == CMD_WRITE_STRUCTURED_FIELD {
            match self.write_structured_field() {
                Ok(v) => Ok(Some(v)),
                Err(e) => Err(e),
            }
        } else {
            let msg = crate::text::string_concat(crate::text::str_to_string("Unknown command: 0x"), crate::text::hex_byte_string(command).as_str());
            Err(msg)
        }
    }

    /// Run the commands from the current position to the end of the data
    /// (see `commands`); the replies come one after the other.
    fn run_commands(&mut self) -> (r: Result<Vec<u8>, String>)
        requires
            old(self).wf(),
        ensures
            old(self).same_context(final(self)),
            final(self).wf(),
            final(self).model() == commands(old(self).data_buffer@, old(self).buffer_pos as int, old(self).model(), old(self).enhanced).0,
            match commands(old(self).data_buffer@, old(self).buffer_pos as int, old(self).model(), old(self).enhanced).1 {
                Ok(x) => r matches Ok(v) && v@ == x,
                Err(e) => r matches Err(m) && m@ == e,
            },
    {
        let ghost buf = self.data_buffer@;
        let ghost enhanced = self.enhanced;
        let ghost target = commands(buf, self.buffer_pos as int, self.model(), enhanced);
        let mut responses: Vec<u8> = Vec::new();
        while self.buffer_pos < self.data_buffer.len()
            invariant
                old(self).same_context(self),
                self.wf(),
                buf == self.data_buffer@,
                enhanced == self.enhanced,
                target == commands(old(self).data_buffer@, old(self).buffer_pos as int, old(self).model(), old(self).enhanced),
                commands(buf, self.buffer_pos as int, self.model(), enhanced).0 == target.0,
                prepend(responses@, commands(buf, self.buffer_pos as int, self.model(), enhanced).1) == target.1,
            decreases buf.len() - self.buffer_pos,
        {
            let ghost pos = self.buffer_pos as int;
            let ghost cur = self.model();
            let escape = match self.get_byte() {
                Ok(b) => b,
                Err(e) => {
                    return Err(e);
                },
            };
            if escape != ESC {
                return Err(crate::text::str_to_string("Invalid command - missing ESC"));
            }
            let command = match self.get_byte() {
                Ok(b) => b,
                Err(e) => {
                    return Err(e);
                },
            };
            proof {
                lemma_command_step_forward(buf, pos + 2, command, cur, enhanced);
            }
            let ghost before = responses@;
            match self.process_command(command) {
                Ok(Some(response)) => {
                    let mut response = response;
                    responses.append(&mut response);
                },
                Ok(None) => {},
                Err(e) => {
                    return Err(e);
                },
            }
            proof {
                let step = command_step(buf, pos + 2, command, cur, enhanced);
                if let Ok((n, out)) = step.1 {
                    lemma_prepend_twice(before, reply_bytes(out), commands(buf, n, step.0, enhanced).1);
                    assert(responses@ == before + reply_bytes(out));
                }
            }
        }
        Ok(responses)
    }

    /// The rate limit, `since_last_nanos` after the last command: at most
    /// 100 commands in a window of one second; a longer pause starts a new
    /// window.
    pub fn enforce_rate_limit_at(&mut self, since_last_nanos: u128) -> (r: Result<(), String>)
        ensures
            *final(self) == (Session {
                command_count: if since_last_nanos < RATE_LIMIT_WINDOW_NANOS { old(self).command_count } else { 0 },
                ..*old(self)
            }),
            since_last_nanos < RATE_LIMIT_WINDOW_NANOS && old(self).command_count >= MAX_COMMANDS_PER_SECOND ==> (r matches Err(m) && m@ == rate_error()),
            !(since_last_nanos < RATE_LIMIT_WINDOW_NANOS && old(self).command_count >= MAX_COMMANDS_PER_SECOND) ==> r is Ok,
    {
        if since_last_nanos < RATE_LIMIT_WINDOW_NANOS {
            if self.command_count >= MAX_COMMANDS_PER_SECOND {
                return Err(crate::text::str_to_string("Rate limit exceeded"));
            }
        } else {
            self.command_count = 0;
        }
        Ok(())
    }

    /// The rate limit, measured now (see `enforce_rate_limit_at`).
    fn enforce_rate_limit(&mut self) -> (r: Result<(), String>)
        ensures
            final(self).command_count == old(self).command_count || final(self).command_count == 0,
            *final(self) == (Session { command_count: final(self).command_count, ..*old(self) }),
            r matches Err(m) ==> m@ == rate_error() && old(self).command_count >= MAX_COMMANDS_PER_SECOND
                && final(self).command_count == old(self).command_count,
            r is Ok ==> final(self).command_count < MAX_COMMANDS_PER_SECOND,
    {
        let since = crate::clock::nanos_since(&self.last_command_time);
        self.enforce_rate_limit_at(since)
    }

    /// Whether the session may run commands when its last command was
    /// `age_nanos` ago: it is authenticated, holds a token and is at most an
    /// hour old.
    pub fn session_authentication_valid_at(&self, age_nanos: u128) -> (r: bool)
        ensures
            r == (self.authenticated && self.session_token is Some && age_nanos <= MAX_SESSION_AGE_NANOS),
    {
        if !self.authenticated {
            return false;
        }
        if self.session_token.is_none() {
            return false;
        }
        if age_nanos > MAX_SESSION_AGE_NANOS {
            return false;
        }
        true
    }

    /// Whether the session may run commands now (see
    /// `session_authentication_valid_at`).
    fn validate_session_authentication(&self) -> (r: bool)
        ensures
            r ==> self.authenticated && self.session_token is Some,
    {
        let age = crate::clock::nanos_since(&self.last_command_time);
        self.session_authentication_valid_at(age)
    }

    /// What processing a block of 5250 data leaves (see `process_stream`).
    pub open spec fn stream_done(&self, after: &Self, data: Seq<u8>, r: Result<Vec<u8>, String>) -> bool {
        &&& after.wf()
        &&& after.device_id == self.device_id
        &&& after.enhanced == self.enhanced
        &&& after.authenticated == self.authenticated
        &&& after.session_token == self.session_token
        &&& after.max_command_size == self.max_command_size
        &&& after.protocol_mode == self.protocol_mode
        &&& after.telnet_negotiator == self.telnet_negotiator
        &&& after.protocol_processor == self.protocol_processor
        &&& after.fallback_buffer == self.fallback_buffer
        &&& data.len() > self.max_command_size ==> *after == *self && (r matches Err(m) && m@ == size_error())
        &&& data.len() <= self.max_command_size ==> ({
            let o = commands(self.data_buffer@ + data, 0, self.model(), self.enhanced);
            &&& !(self.authenticated && self.session_token is Some) ==> (r matches Err(m) && (m@ == rate_error() || m@ == auth_error()))
            &&& r matches Ok(v) ==> {
                &&& self.authenticated && self.session_token is Some
                &&& o.1 == Ok::<Seq<u8>, Seq<char>>(v@)
                &&& after.model() == o.0
                &&& after.data_buffer@.len() == 0
                &&& after.buffer_pos == 0
                &&& after.command_count == self.command_count + 1 || after.command_count == 1
            }
            &&& r matches Err(m) ==> {
                ||| m@ == rate_error() && self.command_count >= MAX_COMMANDS_PER_SECOND && *after == *self
                ||| m@ == auth_error() && after.model() == self.model() && after.data_buffer == self.data_buffer
                    && after.buffer_pos == self.buffer_pos
                ||| {
                    &&& self.authenticated && self.session_token is Some
                    &&& o.1 == Err::<Seq<u8>, Seq<char>>(m@)
                    &&& after.model() == o.0
                    &&& after.data_buffer@.len() == 0
                    &&& after.buffer_pos == 0
                }
            }
        })
        &&& after.command_count <= self.command_count + 1
    }

    /// Process a block of 5250 data: commands each start with an escape
    /// byte; the replies come one after the other. A block larger than the
    /// limit, a flood of commands and an unauthenticated or expired session
    /// are refused. After a block the data buffer is empty.
    pub fn process_stream(&mut self, data: &[u8]) -> (r: Result<Vec<u8>, String>)
        requires
            old(self).wf(),
        ensures
            old(self).stream_done(final(self), data@, r),
    {
        if data.len() > self.max_command_size {
            return Err(crate::text::str_to_string("Command size exceeds maximum allowed"));
        }
        match self.enforce_rate_limit() {
            Ok(()) => {},
            Err(e) => {
                return Err(e);
            },
        }
        if !self.validate_session_authentication() {
            return Err(crate::text::str_to_string("Session authentication required"));
        }
        crate::text::append_bytes(&mut self.data_buffer, data);
        self.buffer_pos = 0;
        let result = self.run_commands();
        self.data_buffer.clear();
        self.buffer_pos = 0;
        let responses = match result {
            Ok(v) => v,
            Err(e) => {
                return Err(e);
            },
        };
        self.command_count = self.command_count + 1;
        self.last_command_time = crate::clock::instant_now();
        Ok(responses)
    }

    /// A new session: a blank 24 x 80 display with the keyboard locked,
    /// not authenticated, with a fresh token, a 65535-byte command limit,
    /// protocol detection and both integrated components.
    pub fn new() -> (r: Self)
        ensures
            r.wf(),
            !r.invited,
            r.read_opcode == 0,
            r.sequence_number == 0,
            r.data_buffer@.len() == 0,
            r.buffer_pos == 0,
            r.display.model().cells == Seq::new(1920, |i: int| TerminalChar::spec_blank()),
            r.display.model().width == 80 && r.display.model().height == 24,
            r.display.model().row == 0 && r.display.model().col == 0,
            r.display.model().indicators == 0,
            r.display.model().locked,
            r.device_id@ == DEFAULT_DEVICE_ID@,
            !r.enhanced,
            !r.authenticated,
            r.session_token matches Some(t) && t@.subrange(0, 5) == "sess_"@ && t@.len() == 21,
            r.max_command_size == 65535,
            r.command_count == 0,
            r.protocol_mode == ProtocolMode::AutoDetect,
            r.telnet_negotiator is Some,
            r.protocol_processor is Some,
            r.fallback_buffer@.len() == 0,
            r.handshake_state == HandshakeState::Initial,
    {
        let display = Display::new();
        proof {
            display.lemma_model();
        }
        let mut session = Session {
            invited: false,
            read_opcode: 0,
            sequence_number: 0,
            data_buffer: Vec::new(),
            buffer_pos: 0,
            display,
            device_id: crate::text::str_to_string(DEFAULT_DEVICE_ID),
            enhanced: false,
            authenticated: false,
            session_token: None,
            max_command_size: 65535,
            command_count: 0,
            last_command_time: crate::clock::instant_now(),
            protocol_mode: ProtocolMode::AutoDetect,
            telnet_negotiator: Some(TelnetNegotiator::new()),
            protocol_processor: Some(ProtocolProcessor::new()),
            fallback_buffer: Vec::new(),
            handshake_state: HandshakeState::Initial,
        };
        let token = session.generate_session_token();
        session.session_token = Some(token);
        session
    }

    /// The session is authenticated once telnet negotiation completes.
    pub fn mark_telnet_negotiation_complete(&mut self)
        ensures
            *final(self) == (Session { authenticated: true, ..*old(self) }),
    {
        self.authenticated = true;
    }

    /// A session token: "sess_" and sixteen lower-case hexadecimal digits
    /// of a digest of the current time.
    fn generate_session_token(&self) -> (r: String)
        ensures
            exists|h: u64| r@ == "sess_"@ + lower_hex_digits(h as nat, 16),
            r@.subrange(0, 5) == "sess_"@,
            r@.len() == 21,
    {
        let timestamp = crate::clock::nanos_since_epoch();
        let digest = crate::clock::hash_u128(timestamp);
        let hex = crate::text::lower_hex16_string(digest);
        let r = crate::text::string_concat(crate::text::str_to_string("sess_"), hex.as_str());
        proof {
            reveal_strlit("sess_");
            lemma_lower_hex_len(digest as nat, 16);
            assert(r@.subrange(0, 5) =~= "sess_"@);
        }
        r
    }

    /// The screen as text (see `Display::to_string`).
    pub fn display_string(&self) -> (r: String)
        requires
            self.wf(),
        ensures
            r@ == crate::terminal::screen_text(self.model().display.cells, self.model().display.width as int, self.model().display.height as nat),
    {
        proof {
            self.display.lemma_model();
        }
        self.display.to_string()
    }

    /// The cursor as (row, column), from 1.
    pub fn cursor_position(&self) -> (r: (usize, usize))
        requires
            self.wf(),
        ensures
            r == ((self.model().display.row + 1) as usize, (self.model().display.col + 1) as usize),
    {
        proof {
            self.display.lemma_model();
        }
        let (row, col) = self.display.cursor_position();
        (row + 1, col + 1)
    }

    /// Announce enhanced 5250 features or not.
    pub fn set_enhanced(&mut self, enhanced: bool)
        ensures
            *final(self) == (Session { enhanced, ..*old(self) }),
    {
        self.enhanced = enhanced;
    }

    /// An attention key: refused when no read is pending, else answered
    /// with the cursor (see `create_field_response`).
    pub fn handle_aid_key(&mut self, aid_code: u8) -> (r: Result<Vec<u8>, String>)
        requires
            old(self).wf(),
        ensures
            final(self).wf(),
            old(self).read_opcode == 0 ==> *final(self) == *old(self) && (r matches Err(m) && m@ == "Not in read mode"@),
            old(self).read_opcode != 0 ==> (r matches Ok(v) && v@ == seq![
                (old(self).model().display.row + 1) as u8,
                (old(self).model().display.col + 1) as u8,
                aid_code,
            ]) && old(self).same_context(final(self)) && final(self).buffer_pos == old(self).buffer_pos
                && final(self).model() == (SessionModel {
                display: old(self).model().display.set_locked(true),
                read_opcode: 0,
                ..old(self).model()
            }),
    {
        if self.read_opcode == 0 {
            return Err(crate::text::str_to_string("Not in read mode"));
        }
        self.create_field_response(aid_code)
    }

    /// The reply to an attention key: the cursor (from 1) and the key; the
    /// read is over and the keyboard locked.
    fn create_field_response(&mut self, aid_code: u8) -> (r: Result<Vec<u8>, String>)
        requires
            old(self).wf(),
        ensures
            final(self).wf(),
            r matches Ok(v) && v@ == seq![(old(self).model().display.row + 1) as u8, (old(self).model().display.col + 1) as u8, aid_code],
            old(self).same_context(final(self)),
            final(self).buffer_pos == old(self).buffer_pos,
            final(self).model() == (SessionModel { display: old(self).model().display.set_locked(true), read_opcode: 0, ..old(self).model() }),
    {
        proof {
            self.display.lemma_model();
        }
        let row = self.display.cursor_row();
        let col = self.display.cursor_col();
        let response = vec![(row + 1) as u8, (col + 1) as u8, aid_code];
        self.read_opcode = 0;
        self.display.lock_keyboard();
        Ok(response)
    }

    /// The display.
    pub fn display(&self) -> (r: &Display)
        ensures
            *r == self.display,
    {
        &self.display
    }

    /// Mutable access to the display.
    pub fn display_mut(&mut self) -> (r: &mut Display)
        ensures
            *r == old(self).display,
            *final(self) == (Session { display: *final(r), ..*old(self) }),
    {
        &mut self.display
    }

    /// Encode fields for a reply (see `encoded_field_data`).
    pub fn encode_field_data(&self, field_data: &[(usize, usize, String)]) -> (r: Vec<u8>)
        ensures
            r@ == encoded_field_data(field_data@),
    {
        let mut encoded: Vec<u8> = Vec::new();
        let mut i: usize = 0;
        while i < field_data.len()
            invariant
                i <= field_data@.len(),
                encoded@ == encoded_field_data(field_data@.take(i as int)),
            decreases field_data@.len() - i,
        {
            let item = &field_data[i];
            let content = item.2.as_str();
            let ghost before = encoded@;
            encoded.push(SBA);
            encoded.push(item.0 as u8);
            encoded.push(item.1 as u8);
            let n = content.unicode_len();
            let mut k: usize = 0;
            while k < n
                invariant
                    n == content@.len(),
                    k <= n,
                    encoded@ == before + seq![SBA, item.0 as u8, item.1 as u8] + content@.take(k as int).map_values(|c: char| spec_ascii_to_ebcdic(c)),
                decreases n - k,
            {
                let ch = content.get_char(k);
                encoded.push(ascii_to_ebcdic(ch));
                k = k + 1;
                proof {
                    assert(content@.take(k as int) =~= content@.take(k - 1).push(ch));
                }
            }
            proof {
                let prefix = field_data@.take(i + 1);
                assert(prefix.drop_last() =~= field_data@.take(i as int));
                assert(content@.take(n as int) =~= content@);
            }
            i = i + 1;
        }
        assert(field_data@.take(i as int) =~= field_data@);
        encoded
    }

    /// Send the modified fields with an attention key: the cursor (from
    /// 1), the key and the encoded fields; the read is over and the
    /// keyboard locked.
    pub fn send_input_fields(&mut self, aid_code: u8, modified_fields: &[(usize, usize, String)]) -> (r: Result<Vec<u8>, String>)
        requires
            old(self).wf(),
        ensures
            final(self).wf(),
            r matches Ok(v) && v@ == seq![(old(self).model().display.row + 1) as u8, (old(self).model().display.col + 1) as u8, aid_code]
                + encoded_field_data(modified_fields@),
            old(self).same_context(final(self)),
            final(self).buffer_pos == old(self).buffer_pos,
            final(self).model() == (SessionModel { display: old(self).model().display.set_locked(true), read_opcode: 0, ..old(self).model() }),
    {
        proof {
            self.display.lemma_model();
        }
        let (cursor_row, cursor_col) = self.display.cursor_position();
        let mut response: Vec<u8> = Vec::new();
        response.push((cursor_row + 1) as u8);
        response.push((cursor_col + 1) as u8);
        response.push(aid_code);
        let mut field_data = self.encode_field_data(modified_fields);
        response.append(&mut field_data);
        self.read_opcode = 0;
        self.display.lock_keyboard();
        Ok(response)
    }

    /// The modified fields; fields are not tracked, so there are none.
    pub fn get_modified_fields(&self) -> (r: Vec<(usize, usize, String)>)
        ensures
            r@.len() == 0,
    {
        Vec::new()
    }

    /// Send pending input with an attention key: the cursor (from 1), the
    /// key and the input; the read is over and the keyboard locked.
    pub fn send_field_input(&mut self, aid_code: u8, pending_input: &[u8]) -> (r: Result<Vec<u8>, String>)
        requires
            old(self).wf(),
        ensures
            final(self).wf(),
            r matches Ok(v) && v@ == seq![(old(self).model().display.row + 1) as u8, (old(self).model().display.col + 1) as u8, aid_code]
                + pending_input@,
            old(self).same_context(final(self)),
            final(self).buffer_pos == old(self).buffer_pos,
            final(self).model() == (SessionModel { display: old(self).model().display.set_locked(true), read_opcode: 0, ..old(self).model() }),
    {
        proof {
            self.display.lemma_model();
        }
        let (cursor_row, cursor_col) = self.display.cursor_position();
        let mut response: Vec<u8> = Vec::new();
        response.push((cursor_row + 1) as u8);
        response.push((cursor_col + 1) as u8);
        response.push(aid_code);
        crate::text::append_bytes(&mut response, pending_input);
        self.read_opcode = 0;
        self.display.lock_keyboard();
        Ok(response)
    }

    /// Authenticate with credentials (see `credentials_ok`): both are
    /// required, the user name is at most 64 bytes and the password at
    /// most 128.
    pub fn authenticate(&mut self, username: &str, password: &str) -> (r: Result<bool, String>)
        ensures
            username@.len() == 0 || password@.len() == 0 ==> *final(self) == *old(self)
                && (r matches Err(m) && m@ == "Username and password are required"@),
            username@.len() > 0 && password@.len() > 0 && (username.spec_bytes().len() > 64 || password.spec_bytes().len() > 128)
                ==> *final(self) == *old(self) && (r matches Err(m) && m@ == "Invalid credential length"@),
            username@.len() > 0 && password@.len() > 0 && username.spec_bytes().len() <= 64 && password.spec_bytes().len() <= 128 ==> {
                &&& *final(self) == (Session { authenticated: credentials_ok(username, password), ..*old(self) })
                &&& credentials_ok(username, password) ==> r == Ok::<bool, String>(true)
                &&& !credentials_ok(username, password) ==> (r matches Err(m) && m@ == "Authentication failed"@)
            },
    {
        if username.unicode_len() == 0 || password.unicode_len() == 0 {
            return Err(crate::text::str_to_string("Username and password are required"));
        }
        if username.as_bytes().len() > 64 || password.as_bytes().len() > 128 {
            return Err(crate::text::str_to_string("Invalid credential length"));
        }
        if self.validate_credentials(username, password) {
            self.authenticated = true;
            Ok(true)
        } else {
            self.authenticated = false;
            Err(crate::text::str_to_string("Authentication failed"))
        }
    }

    /// The basic credential checks (see `credentials_ok`).
    fn validate_credentials(&self, username: &str, password: &str) -> (r: bool)
        ensures
            r == (username@.len() > 0 && password@.len() > 0 && credentials_ok(username, password)),
    {
        if username.unicode_len() == 0 || password.unicode_len() == 0 {
            return false;
        }
        if username.as_bytes().len() < 2 || password.as_bytes().len() < 4 {
            return false;
        }
        let n = username.unicode_len();
        let mut i: usize = 0;
        while i < n
            invariant
                n == username@.len(),
                username@.len() > 0 && password@.len() > 0,
                username.spec_bytes().len() >= 2 && password.spec_bytes().len() >= 4,
                i <= n,
                forall|j: int| 0 <= j < i ==> #[trigger] user_char_ok(username@[j]),
            decreases n - i,
        {
            let c = username.get_char(i);
            if !(crate::text::char_is_alphanumeric(c) || c == '_' || c == '-') {
                assert(!user_char_ok(username@[i as int]));
                return false;
            }
            i = i + 1;
        }
        let m = password.unicode_len();
        let mut k: usize = 0;
        while k < m
            invariant
                m == password@.len(),
                username@.len() > 0 && password@.len() > 0,
                username.spec_bytes().len() >= 2 && password.spec_bytes().len() >= 4,
                forall|j: int| 0 <= j < username@.len() ==> #[trigger] user_char_ok(username@[j]),
                k <= m,
                forall|j: int| 0 <= j < k ==> #[trigger] is_ascii_graphic(password@[j]),
            decreases m - k,
        {
            let c = password.get_char(k);
            let v = c as u32;
            if !(0x21 <= v && v <= 0x7E) {
                assert(!is_ascii_graphic(password@[k as int]));
                return false;
            }
            k = k + 1;
        }
        true
    }

    /// Whether the session is authenticated and holds a token.
    pub fn is_authenticated(&self) -> (r: bool)
        ensures
            r == (self.authenticated && self.session_token is Some),
    {
        self.authenticated && self.session_token.is_some()
    }

    /// The session token, if any.
    pub fn get_session_token(&self) -> (r: Option<&str>)
        ensures
            match self.session_token {
                Some(t) => r matches Some(x) && x@ == t@,
                None => r is None,
            },
    {
        match &self.session_token {
            Some(t) => Some(t.as_str()),
            None => None,
        }
    }

    /// Log out: not authenticated, no token, no commands counted.
    pub fn invalidate_session(&mut self)
        ensures
            *final(self) == (Session { authenticated: false, session_token: None, command_count: 0, ..*old(self) }),
    {
        self.authenticated = false;
        self.session_token = None;
        self.command_count = 0;
    }

    /// Set the command size limit, at most 65535.
    pub fn set_max_command_size(&mut self, size: usize)
        ensures
            *final(self) == (Session { max_command_size: if size < 65535 { size } else { 65535 }, ..*old(self) }),
    {
        self.max_command_size = if size < 65535 { size } else { 65535 };
    }

    /// Set the protocol mode.
    pub fn set_protocol_mode(&mut self, mode: ProtocolMode)
        ensures
            *final(self) == (Session { protocol_mode: mode, ..*old(self) }),
    {
        self.protocol_mode = mode;
    }

    /// The protocol mode.
    pub fn get_protocol_mode(&self) -> (r: ProtocolMode)
        ensures
            r == self.protocol_mode,
    {
        self.protocol_mode
    }

    /// The next sequence number; the counter wraps past 255.
    fn next_sequence_number(&mut self) -> (r: u8)
        ensures
            r == old(self).sequence_number,
            *final(self) == (Session { sequence_number: wrap_inc(old(self).sequence_number), ..*old(self) }),
    {
        let r = self.sequence_number;
        self.sequence_number = if self.sequence_number == 255 { 0 } else { self.sequence_number + 1 };
        r
    }

    /// Start the 5250 exchange: the display is made a blank unlocked
    /// 24 x 80 screen and a Query goes out.
    pub fn send_initial_5250_data(&mut self) -> (r: Result<Vec<u8>, String>)
        requires
            old(self).wf(),
        ensures
            final(self).wf(),
            r matches Ok(v) && v@ == query_packet(old(self).sequence_number),
            final(self).sequence_number == wrap_inc(old(self).sequence_number),
            final(self).handshake_state == HandshakeState::QuerySent,
            final(self).display.model().cells == Seq::new(1920, |i: int| TerminalChar::spec_blank()),
            final(self).display.model().width == 80 && final(self).display.model().height == 24,
            final(self).display.model().row == 0 && final(self).display.model().col == 0,
            !final(self).display.model().locked,
            old(self).same_context(final(self)),
            final(self).buffer_pos == old(self).buffer_pos,
            final(self).read_opcode == old(self).read_opcode,
            final(self).invited == old(self).invited,
    {
        self.display.initialize_5250_screen();
        proof {
            self.display.lemma_model();
        }
        self.handshake_state = HandshakeState::QuerySent;
        let query_packet = self.create_query_packet();
        Ok(query_packet)
    }

    /// Screen initialization after the Query Reply: a Write to Display
    /// putting the cursor home, then a Read Input Fields.
    pub fn send_screen_initialization(&mut self) -> (r: Result<Vec<u8>, String>)
        ensures
            r matches Ok(v) && v@ == init_wtd_packet(old(self).sequence_number) + read_input_fields_packet(wrap_inc(old(self).sequence_number)),
            *final(self) == (Session { sequence_number: wrap_inc(wrap_inc(old(self).sequence_number)), ..*old(self) }),
    {
        let mut data = self.create_write_to_display_packet_with_fields();
        let mut rif = self.create_read_input_fields_packet();
        data.append(&mut rif);
        Ok(data)
    }

    /// The Query packet (see `query_packet`).
    fn create_query_packet(&mut self) -> (r: Vec<u8>)
        ensures
            r@ == query_packet(old(self).sequence_number),
            *final(self) == (Session { sequence_number: wrap_inc(old(self).sequence_number), ..*old(self) }),
    {
        let s = self.next_sequence_number();
        let data = vec![ESC, CMD_WRITE_STRUCTURED_FIELD, s, 0x00u8, 0x06, 0x00, 0x00, 0x03, 0xD9, SF_5250_QUERY, 0x80];
        assert(data@ =~= query_packet(s));
        data
    }

    /// The screen-initializing Write to Display (see `init_wtd_packet`).
    fn create_write_to_display_packet_with_fields(&mut self) -> (r: Vec<u8>)
        ensures
            r@ == init_wtd_packet(old(self).sequence_number),
            *final(self) == (Session { sequence_number: wrap_inc(old(self).sequence_number), ..*old(self) }),
    {
        let s = self.next_sequence_number();
        let data = vec![ESC, CMD_WRITE_TO_DISPLAY, s, 0x00u8, 0x06, 0x00, 0xC0, 0x02, SBA, 0x01, 0x01];
        assert(data@ =~= init_wtd_packet(s));
        data
    }

    /// Keep the 5250 exchange alive: an empty Write to Display, then a
    /// Read Input Fields.
    pub fn send_5250_handshake(&mut self) -> (r: Result<Vec<u8>, String>)
        ensures
            r matches Ok(v) && v@ == empty_wtd_packet(old(self).sequence_number) + read_input_fields_packet(wrap_inc(old(self).sequence_number)),
            *final(self) == (Session { sequence_number: wrap_inc(wrap_inc(old(self).sequence_number)), ..*old(self) }),
    {
        let mut responses: Vec<u8> = Vec::new();
        let mut wtd = self.create_write_to_display_packet();
        responses.append(&mut wtd);
        let mut rif = self.create_read_input_fields_packet();
        responses.append(&mut rif);
        Ok(responses)
    }

    /// An empty Write to Display (see `empty_wtd_packet`).
    fn create_write_to_display_packet(&mut self) -> (r: Vec<u8>)
        ensures
            r@ == empty_wtd_packet(old(self).sequence_number),
            *final(self) == (Session { sequence_number: wrap_inc(old(self).sequence_number), ..*old(self) }),
    {
        let s = self.next_sequence_number();
        let data = vec![ESC, CMD_WRITE_TO_DISPLAY, s, 0x00u8, 0x01, 0x00];
        assert(data@ =~= empty_wtd_packet(s));
        data
    }

    /// A Read Input Fields (see `read_input_fields_packet`).
    fn create_read_input_fields_packet(&mut self) -> (r: Vec<u8>)
        ensures
            r@ == read_input_fields_packet(old(self).sequence_number),
            *final(self) == (Session { sequence_number: wrap_inc(old(self).sequence_number), ..*old(self) }),
    {
        let s = self.next_sequence_number();
        let data = vec![ESC, CMD_READ_INPUT_FIELDS, s, 0x00u8, 0x03, 0x00, 0x00, 0x00];
        assert(data@ =~= read_input_fields_packet(s));
        data
    }

    /// Take what was kept for plain-text consumers.
    pub fn get_fallback_data(&mut self) -> (r: Vec<u8>)
        ensures
            r@ == old(self).fallback_buffer@,
            final(self).fallback_buffer@.len() == 0,
            *final(self) == (Session { fallback_buffer: final(self).fallback_buffer, ..*old(self) }),
    {
        let mut taken: Vec<u8> = Vec::new();
        std::mem::swap(&mut taken, &mut self.fallback_buffer);
        taken
    }

    /// Which integrated components are there; the display always is, the
    /// session counts when it holds a token.
    pub fn check_integration_health(&self) -> (r: IntegrationHealth)
        ensures
            r == (IntegrationHealth {
                telnet_negotiator: self.telnet_negotiator is Some,
                protocol_processor: self.protocol_processor is Some,
                display: true,
                session: self.session_token is Some,
                overall_healthy: self.telnet_negotiator is Some && self.protocol_processor is Some && self.session_token is Some,
            }),
    {
        let telnet_ok = self.telnet_negotiator.is_some();
        let protocol_ok = self.protocol_processor.is_some();
        let display_ok = true;
        let session_ok = self.session_token.is_some();
        IntegrationHealth {
            telnet_negotiator: telnet_ok,
            protocol_processor: protocol_ok,
            display: display_ok,
            session: session_ok,
            overall_healthy: telnet_ok && protocol_ok && display_ok && session_ok,
        }
    }

    /// Whether the Query Reply came and the screen is still to be
    /// initialized.
    pub fn should_send_screen_initialization(&self) -> (r: bool)
        ensures
            r == (self.handshake_state == HandshakeState::QueryReplyReceived),
    {
        match self.handshake_state {
            HandshakeState::QueryReplyReceived => true,
            _ => false,
        }
    }

    /// Record that the screen was initialized (after the Query Reply).
    pub fn mark_screen_initialization_sent(&mut self)
        ensures
            *final(self) == (Session {
                handshake_state: if old(self).handshake_state == HandshakeState::QueryReplyReceived {
                    HandshakeState::ScreenInitialized
                } else {
                    old(self).handshake_state
                },
                ..*old(self)
            }),
    {
        if let HandshakeState::QueryReplyReceived = self.handshake_state {
            self.handshake_state = HandshakeState::ScreenInitialized;
        }
    }

    /// Switch an integrated component ("telnet" or "protocol") on or off;
    /// switching on keeps one that is there. Other names change nothing.
    pub fn set_component_enabled(&mut self, component: &str, enabled: bool)
        ensures
            component@ == "telnet"@ ==> {
                &&& *final(self) == (Session { telnet_negotiator: final(self).telnet_negotiator, ..*old(self) })
                &&& enabled ==> final(self).telnet_negotiator is Some
                &&& enabled && old(self).telnet_negotiator is Some ==> final(self).telnet_negotiator == old(self).telnet_negotiator
                &&& !enabled ==> final(self).telnet_negotiator is None
            },
            component@ == "protocol"@ ==> {
                &&& *final(self) == (Session { protocol_processor: final(self).protocol_processor, ..*old(self) })
                &&& enabled ==> final(self).protocol_processor is Some
                &&& enabled && old(self).protocol_processor is Some ==> final(self).protocol_processor == old(self).protocol_processor
                &&& !enabled ==> final(self).protocol_processor is None
            },
            component@ != "telnet"@ && component@ != "protocol"@ ==> *final(self) == *old(self),
    {
        proof {
            reveal_strlit("telnet");
            reveal_strlit("protocol");
            assert("telnet"@[0] != "protocol"@[0]);
        }
        if crate::text::str_equal(component, "telnet") {
            if enabled && self.telnet_negotiator.is_none() {
                self.telnet_negotiator = Some(TelnetNegotiator::new());
            } else if !enabled {
                self.telnet_negotiator = None;
            }
        } else if crate::text::str_equal(component, "protocol") {
            if enabled && self.protocol_processor.is_none() {
                self.protocol_processor = Some(ProtocolProcessor::new());
            } else if !enabled {
                self.protocol_processor = None;
            }
        }
    }
}

/// The end of a telnet subnegotiation searched from `j`: just past the
/// first IAC SE, or none.
pub open spec fn subnegotiation_end(data: Seq<u8>, j: int) -> Option<int>
    decreases data.len() - j,
{
    if j < 0 || j + 1 >= data.len() {
        None
    } else if data[j] == 0xFF && data[j + 1] == 0xF0 {
        Some(j + 2)
    } else {
        subnegotiation_end(data, j + 1)
    }
}

/// The bytes from `i` without telnet commands: IAC WILL/WONT/DO/DONT with
/// their option, subnegotiations through IAC SE (all the rest when the SE
/// is missing) and other two-byte commands are dropped; a doubled IAC
/// stands for one 0xFF byte; an IAC as the last byte is kept.
pub open spec fn without_telnet(data: Seq<u8>, i: int) -> Seq<u8>
    decreases data.len() - i,
{
    if i < 0 || i >= data.len() {
        Seq::empty()
    } else if data[i] == 0xFF && i + 1 < data.len() {
        let c = data[i + 1];
        if 251 <= c && c <= 254 {
            if i + 3 <= data.len() { without_telnet(data, i + 3) } else { Seq::empty() }
        } else if c == 250 {
            match subnegotiation_end(data, i + 2) {
                Some(k) => if i < k && k <= data.len() { without_telnet(data, k) } else { Seq::empty() },
                None => Seq::empty(),
            }
        } else if c == 255 {
            seq![0xFFu8] + without_telnet(data, i + 2)
        } else {
            without_telnet(data, i + 2)
        }
    } else {
        seq![data[i]] + without_telnet(data, i + 1)
    }
}

/// A subnegotiation ends past its start, within the data.
proof fn lemma_subnegotiation_end_bounds(data: Seq<u8>, j: int)
    ensures
        subnegotiation_end(data, j) matches Some(k) ==> j + 2 <= k <= data.len(),
    decreases data.len() - j,
{
    if !(j < 0 || j + 1 >= data.len()) && !(data[j] == 0xFF && data[j + 1] == 0xF0) {
        lemma_subnegotiation_end_bounds(data, j + 1);
    }
}

impl Session {
    /// The 5250 bytes in a telnet stream (see `without_telnet`).
    pub fn extract_5250_from_telnet(&self, data: &[u8]) -> (r: Vec<u8>)
        ensures
            r@ == without_telnet(data@, 0),
    {
        let n = data.len();
        let mut result: Vec<u8> = Vec::new();
        let mut i: usize = 0;
        while i < n
            invariant
                n == data@.len(),
                i <= n,
                result@ + without_telnet(data@, i as int) == without_telnet(data@, 0),
            decreases n - i,
        {
            if data[i] == 255 && i < n - 1 {
                let c = data[i + 1];
                if c >= 251 && c <= 254 {
                    if n - i >= 3 {
                        i = i + 3;
                    } else {
                        assert(without_telnet(data@, i as int) =~= Seq::<u8>::empty());
                        i = n;
                    }
                } else if c == 250 {
                    let ghost start = i as int;
                    let mut j: usize = i + 2;
                    let mut end: Option<usize> = None;
                    while end.is_none() && j < n - 1
                        invariant
                            n == data@.len(),
                            n >= 2,
                            start + 2 <= j <= n,
                            end matches Some(k) ==> subnegotiation_end(data@, start + 2) == Some(k as int),
                            end is None ==> subnegotiation_end(data@, start + 2) == subnegotiation_end(data@, j as int),
                        decreases n - j + if end is None { 1int } else { 0int },
                    {
                        if data[j] == 255 && data[j + 1] == 240 {
                            end = Some(j + 2);
                        } else {
                            j = j + 1;
                        }
                    }
                    proof {
                        lemma_subnegotiation_end_bounds(data@, start + 2);
                    }
                    match end {
                        Some(k) => {
                            i = k;
                        },
                        None => {
                            assert(without_telnet(data@, start) =~= Seq::<u8>::empty());
                            i = n;
                        },
                    }
                } else if c == 255 {
                    let ghost before = result@;
                    result.push(255u8);
                    assert(result@ + without_telnet(data@, i + 2) =~= before + without_telnet(data@, i as int));
                    i = i + 2;
                } else {
                    i = i + 2;
                }
            } else {
                let ghost before = result@;
                result.push(data[i]);
                assert(result@ + without_telnet(data@, i + 1) =~= before + without_telnet(data@, i as int));
                i = i + 1;
            }
        }
        assert(result@ + without_telnet(data@, n as int) =~= result@);
        result
    }
}

/// What the packet processor answers a command with (see
/// `ProtocolProcessor::process_packet`).
pub open spec fn processor_reply(p: ProtocolProcessor, command: CommandCode) -> Seq<u8> {
    match command {
        CommandCode::ReadInputFields | CommandCode::ReadMdtFields | CommandCode::ReadMdtFieldsAlt => packet_bytes(
            command,
            next_sequence(p.sequence()),
            0,
            p.pending_input(),
        ),
        CommandCode::ReadImmediate => packet_bytes(CommandCode::ReadImmediate, next_sequence(p.sequence()), 0, Seq::empty()),
        _ => Seq::empty(),
    }
}

/// The packet processor `q` after `p` answered a command.
pub open spec fn processor_after(p: ProtocolProcessor, q: ProtocolProcessor, command: CommandCode) -> bool {
    &&& q.is_connected() == p.is_connected()
    &&& q.device() == p.device()
    &&& q.pending_count() == p.pending_count()
    &&& match command {
        CommandCode::ReadInputFields | CommandCode::ReadMdtFields | CommandCode::ReadMdtFieldsAlt => q.sequence()
            == next_sequence(p.sequence()) && q.pending_input() == Seq::<u8>::empty(),
        CommandCode::ReadImmediate => q.sequence() == next_sequence(p.sequence()) && q.pending_input() == p.pending_input(),
        _ => q.sequence() == p.sequence() && q.pending_input() == p.pending_input(),
    }
}

/// The wire bytes of packets, one after the other.
pub open spec fn packets_bytes(s: Seq<Packet>) -> Seq<u8>
    decreases s.len(),
{
    if s.len() == 0 {
        Seq::empty()
    } else {
        packets_bytes(s.drop_last()) + packet_bytes(s.last().command, s.last().sequence_number, s.last().flags, s.last().data@)
    }
}

/// Whether every byte is printable ASCII (space through '~').
pub open spec fn is_plain_text(data: Seq<u8>) -> bool {
    forall|k: int| 0 <= k < data.len() ==> 32 <= #[trigger] data[k] && data[k] <= 126
}

/// The protocol that data announce: 5250 when they start with an escape
/// byte and hold a second byte, plain text when every byte is printable
/// ASCII, else 5250.
pub open spec fn detected_mode(data: Seq<u8>) -> ProtocolMode {
    if data.len() >= 2 && data[0] == 0x04 {
        ProtocolMode::TN5250
    } else if is_plain_text(data) {
        ProtocolMode::NVT
    } else {
        ProtocolMode::TN5250
    }
}

/// The message for 3270 data in a 5250 session.
pub open spec fn tn3270_error() -> Seq<char> {
    "TN3270 protocol not supported in TN5250 session"@
}

impl Session {
    /// What keeping plain-text data leaves: the data are added to the
    /// fallback buffer, nothing else changes, and there is no reply.
    pub open spec fn nvt_done(&self, after: &Self, data: Seq<u8>, r: Result<Vec<u8>, String>) -> bool {
        &&& after.fallback_buffer@ == self.fallback_buffer@ + data
        &&& *after == (Session { fallback_buffer: after.fallback_buffer, ..*self })
        &&& r matches Ok(v) && v@.len() == 0
    }

    /// What handling 5250 data through the integrated components leaves.
    /// Without a telnet negotiator the data go to `process_stream`. With
    /// one, telnet commands are dropped (see `without_telnet`); nothing
    /// left is no work; what does not parse as a packet goes to
    /// `process_stream`; a Write To Display or Write Structured Field
    /// packet is run on the display, with no reply; any other packet is
    /// answered by the packet processor, if there is one.
    pub open spec fn integrated_5250_done(&self, after: &Self, data: Seq<u8>, r: Result<Vec<u8>, String>) -> bool {
        if self.telnet_negotiator is None {
            self.stream_done(after, data, r)
        } else {
            let clean = without_telnet(data, 0);
            if clean.len() == 0 {
                *after == *self && (r matches Ok(v) && v@.len() == 0)
            } else {
                match parse_packet(clean) {
                    None => self.stream_done(after, clean, r),
                    Some((command, _, _, body)) => if command is WriteToDisplay || command is WriteStructuredField {
                        &&& r matches Ok(v) && v@.len() == 0
                        &&& after.wf()
                        &&& after.data_buffer@ == body
                        &&& (Session { data_buffer: after.data_buffer, ..*self }).same_context(after)
                        &&& after.model() == if command is WriteToDisplay {
                            SessionModel { display: write_to_display(body, 0, self.model().display).0, ..self.model() }
                        } else {
                            structured_field(body, 0, self.model(), self.enhanced).0
                        }
                    } else {
                        &&& *after == (Session { protocol_processor: after.protocol_processor, ..*self })
                        &&& match self.protocol_processor {
                            None => after.protocol_processor is None && (r matches Ok(v) && v@.len() == 0),
                            Some(p) => (after.protocol_processor matches Some(q) && processor_after(p, q, command))
                                && (r matches Ok(v) && v@ == processor_reply(p, command)),
                        }
                    },
                }
            }
        }
    }

    /// What handling data in the session's protocol mode leaves: 5250 data
    /// through the integrated components, plain text into the fallback
    /// buffer, data in detection mode by the protocol they announce (which
    /// becomes the mode; see `detected_mode`), and 3270 refused.
    pub open spec fn dispatch_done(&self, after: &Self, data: Seq<u8>, r: Result<Vec<u8>, String>) -> bool {
        match self.protocol_mode {
            ProtocolMode::TN5250 => self.integrated_5250_done(after, data, r),
            ProtocolMode::NVT => self.nvt_done(after, data, r),
            ProtocolMode::AutoDetect => {
                let s = Session { protocol_mode: detected_mode(data), ..*self };
                if detected_mode(data) is NVT {
                    s.nvt_done(after, data, r)
                } else {
                    s.integrated_5250_done(after, data, r)
                }
            },
            ProtocolMode::TN3270 => *after == *self && (r matches Err(m) && m@ == tn3270_error()),
        }
    }

    /// What `process_integrated_data` leaves when the last command was
    /// `since_last_nanos` ago for the rate limit and `age_nanos` ago for
    /// the session's age: a block over the size limit, a flood of commands
    /// and an unauthenticated or expired session are refused; otherwise the
    /// data are handled in the protocol mode (see `dispatch_done`), and
    /// after success the command is counted and its time kept.
    pub open spec fn integrated_done(
        &self,
        after: &Self,
        data: Seq<u8>,
        since_last_nanos: u128,
        age_nanos: u128,
        r: Result<Vec<u8>, String>,
    ) -> bool {
        &&& after.wf()
        &&& data.len() > self.max_command_size ==> *after == *self && (r matches Err(m) && m@ == size_error())
        &&& data.len() <= self.max_command_size ==> {
            let limited = since_last_nanos < RATE_LIMIT_WINDOW_NANOS && self.command_count >= MAX_COMMANDS_PER_SECOND;
            let s1 = Session {
                command_count: if since_last_nanos < RATE_LIMIT_WINDOW_NANOS { self.command_count } else { 0 },
                ..*self
            };
            let allowed = self.authenticated && self.session_token is Some && age_nanos <= MAX_SESSION_AGE_NANOS;
            &&& limited ==> *after == *self && (r matches Err(m) && m@ == rate_error())
            &&& !limited && !allowed ==> *after == s1 && (r matches Err(m) && m@ == auth_error())
            &&& !limited && allowed ==> exists|mid: Session| #[trigger] self.settles(after, data, since_last_nanos, r, mid)
        }
    }

    /// Handling `data` took the session, with its rate-limit count as
    /// `since_last_nanos` leaves it, to `mid` with outcome `r` (see
    /// `dispatch_done`), and `after` is `mid` with the command counted and
    /// its time kept when `r` is a success.
    pub open spec fn settles(&self, after: &Self, data: Seq<u8>, since_last_nanos: u128, r: Result<Vec<u8>, String>, mid: Session) -> bool {
        &&& (Session {
            command_count: if since_last_nanos < RATE_LIMIT_WINDOW_NANOS { self.command_count } else { 0 },
            ..*self
        }).dispatch_done(&mid, data, r)
        &&& r is Ok ==> *after == (Session {
            command_count: (mid.command_count + 1) as usize,
            last_command_time: after.last_command_time,
            ..mid
        })
        &&& r is Err ==> *after == mid
    }

    /// Keep plain-text data for plain-text consumers (see `nvt_done`).
    fn process_nvt_data(&mut self, data: &[u8]) -> (r: Result<Vec<u8>, String>)
        ensures
            old(self).nvt_done(final(self), data@, r),
    {
        crate::text::append_bytes(&mut self.fallback_buffer, data);
        Ok(Vec::new())
    }

    /// Handle 5250 data through the integrated components (see
    /// `integrated_5250_done`).
    fn process_5250_data_integrated(&mut self, data: &[u8]) -> (r: Result<Vec<u8>, String>)
        requires
            old(self).wf(),
        ensures
            old(self).integrated_5250_done(final(self), data@, r),
            final(self).command_count <= old(self).command_count + 1,
    {
        let mut responses: Vec<u8> = Vec::new();
        if self.telnet_negotiator.is_none() {
            return self.process_stream(data);
        }
        let clean_data = self.extract_5250_from_telnet(data);
        if clean_data.len() == 0 {
            return Ok(responses);
        }
        let packet = match Packet::from_bytes(clean_data.as_slice()) {
            Some(p) => p,
            None => {
                return self.process_stream(clean_data.as_slice());
            },
        };
        match packet.command {
            CommandCode::WriteToDisplay => {
                self.data_buffer.clear();
                crate::text::append_bytes(&mut self.data_buffer, packet.data.as_slice());
                self.buffer_pos = 0;
                let _ = self.write_to_display();
            },
            CommandCode::WriteStructuredField => {
                self.data_buffer.clear();
                crate::text::append_bytes(&mut self.data_buffer, packet.data.as_slice());
                self.buffer_pos = 0;
                let _ = self.write_structured_field();
            },
            _ => {
                let mut slot: Option<ProtocolProcessor> = None;
                std::mem::swap(&mut slot, &mut self.protocol_processor);
                match slot {
                    Some(processor) => {
                        let mut processor = processor;
                        match processor.process_packet(&packet) {
                            Ok(replies) => {
                                let mut i: usize = 0;
                                while i < replies.len()
                                    invariant
                                        i <= replies@.len(),
                                        responses@ == packets_bytes(replies@.take(i as int)),
                                    decreases replies@.len() - i,
                                {
                                    let mut bytes = replies[i].to_bytes();
                                    responses.append(&mut bytes);
                                    assert(replies@.take(i + 1).drop_last() =~= replies@.take(i as int));
                                    i = i + 1;
                                }
                                assert(replies@.take(replies@.len() as int) =~= replies@);
                                assert(replies@.len() <= 1 ==> packets_bytes(replies@.take(0)) =~= Seq::<u8>::empty());
                            },
                            Err(_) => {},
                        }
                        self.protocol_processor = Some(processor);
                    },
                    None => {},
                }
            },
        }
        Ok(responses)
    }

    /// Handle data in detection mode: the protocol they announce becomes
    /// the mode, and they are handled in it (see `detected_mode`).
    fn process_auto_detect_data(&mut self, data: &[u8]) -> (r: Result<Vec<u8>, String>)
        requires
            old(self).wf(),
        ensures
            ({
                let s = Session { protocol_mode: detected_mode(data@), ..*old(self) };
                if detected_mode(data@) is NVT {
                    s.nvt_done(final(self), data@, r)
                } else {
                    s.integrated_5250_done(final(self), data@, r)
                }
            }),
            final(self).command_count <= old(self).command_count + 1,
    {
        if data.len() >= 2 && data[0] == 0x04 {
            self.protocol_mode = ProtocolMode::TN5250;
            return self.process_5250_data_integrated(data);
        }
        let mut plain = true;
        let mut k: usize = 0;
        while k < data.len()
            invariant
                k <= data@.len(),
                plain == (forall|j: int| 0 <= j < k ==> 32 <= #[trigger] data@[j] && data@[j] <= 126),
            decreases data@.len() - k,
        {
            if data[k] < 32 || data[k] > 126 {
                plain = false;
            }
            k = k + 1;
        }
        if plain {
            self.protocol_mode = ProtocolMode::NVT;
            self.process_nvt_data(data)
        } else {
            self.protocol_mode = ProtocolMode::TN5250;
            self.process_5250_data_integrated(data)
        }
    }

    /// Handle data in the session's protocol mode, with the rate limit and
    /// the session's age measured as given (see `integrated_done`).
    pub fn process_integrated_data_at(&mut self, data: &[u8], since_last_nanos: u128, age_nanos: u128) -> (r: Result<Vec<u8>, String>)
        requires
            old(self).wf(),
        ensures
            old(self).integrated_done(final(self), data@, since_last_nanos, age_nanos, r),
    {
        if data.len() > self.max_command_size {
            return Err(crate::text::str_to_string("Command size exceeds maximum allowed"));
        }
        match self.enforce_rate_limit_at(since_last_nanos) {
            Ok(()) => {},
            Err(e) => {
                return Err(e);
            },
        }
        if !self.session_authentication_valid_at(age_nanos) {
            return Err(crate::text::str_to_string("Session authentication required"));
        }
        let result = match self.protocol_mode {
            ProtocolMode::TN5250 => self.process_5250_data_integrated(data),
            ProtocolMode::NVT => self.process_nvt_data(data),
            ProtocolMode::AutoDetect => self.process_auto_detect_data(data),
            ProtocolMode::TN3270 => {
                let refusal = crate::text::str_to_string("TN3270 protocol not supported in TN5250 session");
                assert(old(self).settles(&*self, data@, since_last_nanos, Err(refusal), *self));
                return Err(refusal);
            },
        };
        let ghost mid = *self;
        let responses = match result {
            Ok(v) => v,
            Err(e) => {
                assert(old(self).settles(&*self, data@, since_last_nanos, Err(e), mid));
                return Err(e);
            },
        };
        self.command_count = self.command_count + 1;
        self.last_command_time = crate::clock::instant_now();
        assert(old(self).settles(&*self, data@, since_last_nanos, Ok(responses), mid));
        Ok(responses)
    }

    /// Handle data in the session's protocol mode, with the rate limit and
    /// the session's age measured now (see `process_integrated_data_at`).
    pub fn process_integrated_data(&mut self, data: &[u8]) -> (r: Result<Vec<u8>, String>)
        requires
            old(self).wf(),
        ensures
            exists|since_last_nanos: u128, age_nanos: u128|
                old(self).integrated_done(final(self), data@, since_last_nanos, age_nanos, r),
    {
        let since = crate::clock::nanos_since(&self.last_command_time);
        let age = crate::clock::nanos_since(&self.last_command_time);
        self.process_integrated_data_at(data, since, age)
    }
}

impl Default for Session {
    fn default() -> (r: Self)
        ensures
            r.wf(),
            r.read_opcode == 0,
            r.buffer_pos == 0,
            r.data_buffer@.len() == 0,
            !r.authenticated,
            r.session_token is Some,
            r.handshake_state == HandshakeState::Initial,
    {
        Session::new()
    }
}

} // verus!
