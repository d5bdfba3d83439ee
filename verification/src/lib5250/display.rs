//! The 5250 display: a character screen with its cursor, size, keyboard
//! lock and indicator flags, and the display operations a session performs.

use vstd::prelude::*;
use crate::ebcdic::{ascii_byte_to_ebcdic, ebcdic_to_ascii, spec_ascii_byte_to_ebcdic, spec_ebcdic_to_ascii};
use crate::terminal::{CharAttribute, TerminalChar, TerminalScreen, advance, screen_text, lemma_index_in_grid, rolled_cell};

verus! {

pub const TN5250_DISPLAY_IND_INHIBIT: u32 = 0x0001;
pub const TN5250_DISPLAY_IND_MESSAGE_WAITING: u32 = 0x0002;
pub const TN5250_DISPLAY_IND_X_SYSTEM: u32 = 0x0004;
pub const TN5250_DISPLAY_IND_X_CLOCK: u32 = 0x0008;
pub const TN5250_DISPLAY_IND_INSERT: u32 = 0x0010;
pub const TN5250_DISPLAY_IND_FER: u32 = 0x0020;
pub const TN5250_DISPLAY_IND_MACRO: u32 = 0x0040;

/// The display state of a 5250 session.
#[derive(Debug)]
pub struct Display {
    screen: TerminalScreen,
    cursor_row: usize,
    cursor_col: usize,
    width: usize,
    height: usize,
    indicators: u32,
    keyboard_locked: bool,
    pending_insert: bool,
    insert_cursor_row: usize,
    insert_cursor_col: usize,
    alarm_pending: bool,
}

/// The cursor after (row, col) on a `width` x `height` display: the next
/// column, else the start of the next row, staying on the last row.
pub open spec fn next_cursor(row: usize, col: usize, width: usize, height: usize) -> (usize, usize) {
    if col + 1 < width {
        (row, (col + 1) as usize)
    } else if row + 1 < height {
        ((row + 1) as usize, 0)
    } else {
        ((height - 1) as usize, 0)
    }
}

/// The abstract state of a display: screen cells and screen cursor, the
/// display cursor, size, indicators, keyboard lock, pending insert position
/// and pending alarm.
pub ghost struct DisplayModel {
    pub cells: Seq<TerminalChar>,
    pub screen_x: usize,
    pub screen_y: usize,
    pub dirty: bool,
    pub screen_locked: bool,
    pub row: usize,
    pub col: usize,
    pub width: usize,
    pub height: usize,
    pub indicators: u32,
    pub locked: bool,
    pub pending_insert: bool,
    pub insert_row: usize,
    pub insert_col: usize,
    pub alarm: bool,
}

impl DisplayModel {
    /// The model with the screen replaced.
    pub open spec fn with_screen(self, screen: TerminalScreen) -> Self {
        DisplayModel {
            cells: screen.buffer@,
            screen_x: screen.cursor_x,
            screen_y: screen.cursor_y,
            dirty: screen.dirty,
            screen_locked: screen.keyboard_locked,
            ..self
        }
    }

    /// Move the cursor when (row, col) is on the display.
    pub open spec fn set_cursor(self, row: usize, col: usize) -> Self {
        if row < self.height && col < self.width {
            DisplayModel { row, col, screen_x: col, screen_y: row, ..self }
        } else {
            self
        }
    }

    /// Write an EBCDIC character at the cursor and advance (see `addch`).
    pub open spec fn addch(self, ch: u8) -> Self {
        if self.row < self.height && self.col < self.width {
            let (nr, nc) = next_cursor(self.row, self.col, self.width, self.height);
            DisplayModel {
                cells: self.cells.update(
                    self.row * self.width + self.col,
                    TerminalChar { character: spec_ebcdic_to_ascii(ch), attribute: CharAttribute::Normal },
                ),
                row: nr,
                col: nc,
                screen_x: nc,
                screen_y: nr,
                dirty: true,
                ..self
            }
        } else {
            self
        }
    }

    /// Lock or unlock the keyboard.
    pub open spec fn set_locked(self, locked: bool) -> Self {
        DisplayModel { locked, screen_locked: locked, ..self }
    }

    /// Sound the alarm.
    pub open spec fn beep(self) -> Self {
        DisplayModel { alarm: true, ..self }
    }

    /// Remember a home position.
    pub open spec fn set_pending_insert(self, row: usize, col: usize) -> Self {
        DisplayModel { pending_insert: true, insert_row: row, insert_col: col, ..self }
    }

    /// Blank the screen cells and home the screen cursor.
    pub open spec fn screen_clear(self) -> Self {
        DisplayModel {
            cells: Seq::new(self.cells.len(), |i: int| TerminalChar::spec_blank()),
            screen_x: 0,
            screen_y: 0,
            dirty: true,
            ..self
        }
    }

    /// Every cell's attribute back to normal.
    pub open spec fn clear_format_table(self) -> Self {
        DisplayModel {
            cells: Seq::new(
                self.cells.len(),
                |i: int| TerminalChar { character: self.cells[i].character, attribute: CharAttribute::Normal },
            ),
            dirty: true,
            ..self
        }
    }

    /// Blank the cells from the start through the end position in reading
    /// order.
    pub open spec fn erase_region(self, start_row: usize, start_col: usize, end_row: usize, end_col: usize) -> Self {
        DisplayModel {
            cells: Seq::new(
                self.cells.len(),
                |i: int|
                    if start_row * self.width + start_col <= i <= end_row * self.width + end_col {
                        TerminalChar::spec_blank()
                    } else {
                        self.cells[i]
                    },
            ),
            dirty: true,
            ..self
        }
    }

    /// Rows `top` through `bottom` moved by `lines` (see `rolled_cell`).
    pub open spec fn roll(self, top: u8, bottom: u8, lines: int) -> Self {
        DisplayModel {
            cells: Seq::new(
                self.cells.len(),
                |i: int|
                    rolled_cell(
                        self.cells,
                        self.width as int,
                        self.height as int,
                        top as int,
                        bottom as int,
                        lines,
                        i % (self.width as int),
                        i / (self.width as int),
                    ),
            ),
            dirty: true,
            ..self
        }
    }

    /// A blank screen of the given size: cursor home, keyboard locked, the
    /// system indicator set and `cleared` indicators cleared.
    pub open spec fn clear_to(self, width: usize, height: usize, cleared: u32, keep_insert: bool) -> Self {
        DisplayModel {
            cells: Seq::new((width * height) as nat, |i: int| TerminalChar::spec_blank()),
            screen_x: 0,
            screen_y: 0,
            dirty: true,
            row: 0,
            col: 0,
            width,
            height,
            indicators: (self.indicators | TN5250_DISPLAY_IND_X_SYSTEM) & !cleared,
            locked: true,
            pending_insert: if keep_insert { self.pending_insert } else { false },
            ..self
        }
    }
}

impl Display {
    pub closed spec fn screen_state(&self) -> TerminalScreen {
        self.screen
    }

    pub closed spec fn row(&self) -> usize {
        self.cursor_row
    }

    pub closed spec fn col(&self) -> usize {
        self.cursor_col
    }

    pub closed spec fn spec_width(&self) -> usize {
        self.width
    }

    pub closed spec fn spec_height(&self) -> usize {
        self.height
    }

    pub closed spec fn spec_indicators(&self) -> u32 {
        self.indicators
    }

    pub closed spec fn locked(&self) -> bool {
        self.keyboard_locked
    }

    pub closed spec fn insert_pending(&self) -> bool {
        self.pending_insert
    }

    pub closed spec fn insert_position(&self) -> (usize, usize) {
        (self.insert_cursor_row, self.insert_cursor_col)
    }

    /// Whether an alarm was sounded and not yet taken.
    pub closed spec fn alarm(&self) -> bool {
        self.alarm_pending
    }

    /// The abstract state.
    pub closed spec fn model(&self) -> DisplayModel {
        DisplayModel {
            cells: self.screen.buffer@,
            screen_x: self.screen.cursor_x,
            screen_y: self.screen.cursor_y,
            dirty: self.screen.dirty,
            screen_locked: self.screen.keyboard_locked,
            row: self.cursor_row,
            col: self.cursor_col,
            width: self.width,
            height: self.height,
            indicators: self.indicators,
            locked: self.keyboard_locked,
            pending_insert: self.pending_insert,
            insert_row: self.insert_cursor_row,
            insert_col: self.insert_cursor_col,
            alarm: self.alarm_pending,
        }
    }

    /// The model's view of the display's settings and screen.
    pub proof fn lemma_model(&self)
        ensures
            self.model().cells == self.screen_state().buffer@,
            self.model().row == self.row(),
            self.model().col == self.col(),
            self.model().width == self.spec_width(),
            self.model().height == self.spec_height(),
            self.model().indicators == self.spec_indicators(),
            self.model().locked == self.locked(),
            self.model().pending_insert == self.insert_pending(),
            (self.model().insert_row, self.model().insert_col) == self.insert_position(),
            self.model().alarm == self.alarm(),
            self.model().screen_x == self.screen_state().cursor_x,
            self.model().screen_y == self.screen_state().cursor_y,
            self.model().screen_locked == self.screen_state().keyboard_locked,
            self.model().dirty == self.screen_state().dirty,
    {
    }

    /// The screen matches the display's size.
    pub open spec fn wf(&self) -> bool {
        &&& self.screen_state().wf()
        &&& self.screen_state().width == self.spec_width()
        &&& self.screen_state().height == self.spec_height()
    }

    /// Whether `other` differs from `self` at most in the screen contents
    /// and the cursor.
    pub open spec fn same_settings(&self, other: &Self) -> bool {
        &&& other.spec_width() == self.spec_width()
        &&& other.spec_height() == self.spec_height()
        &&& other.spec_indicators() == self.spec_indicators()
        &&& other.locked() == self.locked()
        &&& other.insert_pending() == self.insert_pending()
        &&& other.insert_position() == self.insert_position()
        &&& other.alarm() == self.alarm()
    }

    /// A blank 24 x 80 display, cursor at the origin, keyboard locked, no
    /// indicators.
    pub fn new() -> (r: Self)
        ensures
            r.wf(),
            r.spec_width() == 80,
            r.spec_height() == 24,
            r.screen_state().buffer@ == Seq::new(1920, |i: int| TerminalChar::spec_blank()),
            r.screen_state().cursor_x == 0 && r.screen_state().cursor_y == 0,
            (r.row(), r.col()) == (0usize, 0usize),
            r.spec_indicators() == 0,
            r.locked(),
            !r.insert_pending(),
            !r.alarm(),
    {
        Display {
            screen: TerminalScreen::new_with_size(80, 24),
            cursor_row: 0,
            cursor_col: 0,
            width: 80,
            height: 24,
            indicators: 0,
            keyboard_locked: true,
            pending_insert: false,
            insert_cursor_row: 0,
            insert_cursor_col: 0,
            alarm_pending: false,
        }
    }

    /// The screen.
    pub fn screen_ref(&self) -> (r: &TerminalScreen)
        ensures
            *r == self.screen_state(),
    {
        &self.screen
    }

    /// The screen's text (see `TerminalScreen::to_string`).
    pub fn screen_to_string(&self) -> (r: String)
        requires
            self.wf(),
        ensures
            r@ == screen_text(self.screen_state().buffer@, self.spec_width() as int, self.spec_height() as nat),
    {
        self.screen.to_string()
    }

    /// The screen's text.
    pub fn to_string(&self) -> (r: String)
        requires
            self.wf(),
        ensures
            r@ == screen_text(self.screen_state().buffer@, self.spec_width() as int, self.spec_height() as nat),
    {
        self.screen_to_string()
    }

    /// Mutable access to the screen; everything else stays.
    pub fn screen(&mut self) -> (r: &mut TerminalScreen)
        ensures
            final(self).model() == old(self).model().with_screen(*final(r)),
            *r == old(self).screen_state(),
            final(self).screen_state() == *final(r),
            old(self).same_settings(final(self)),
            final(self).row() == old(self).row(),
            final(self).col() == old(self).col(),
    {
        &mut self.screen
    }

    /// The cursor as (row, column), from 0.
    pub fn cursor_position(&self) -> (r: (usize, usize))
        ensures
            r == (self.row(), self.col()),
    {
        (self.cursor_row, self.cursor_col)
    }

    pub fn width(&self) -> (r: usize)
        ensures
            r == self.spec_width(),
    {
        self.width
    }

    pub fn height(&self) -> (r: usize)
        ensures
            r == self.spec_height(),
    {
        self.height
    }

    pub fn cursor_row(&self) -> (r: usize)
        ensures
            r == self.row(),
    {
        self.cursor_row
    }

    pub fn cursor_col(&self) -> (r: usize)
        ensures
            r == self.col(),
    {
        self.cursor_col
    }

    pub fn indicators(&self) -> (r: u32)
        ensures
            r == self.spec_indicators(),
    {
        self.indicators
    }

    pub fn keyboard_locked(&self) -> (r: bool)
        ensures
            r == self.locked(),
    {
        self.keyboard_locked
    }

    /// Set indicator flags.
    pub fn indicator_set(&mut self, indicators: u32)
        ensures
            final(self).spec_indicators() == old(self).spec_indicators() | indicators,
            final(self).screen_state() == old(self).screen_state(),
            final(self).row() == old(self).row(),
            final(self).col() == old(self).col(),
            final(self).spec_width() == old(self).spec_width(),
            final(self).spec_height() == old(self).spec_height(),
            final(self).locked() == old(self).locked(),
            final(self).insert_pending() == old(self).insert_pending(),
            final(self).insert_position() == old(self).insert_position(),
            final(self).alarm() == old(self).alarm(),
    {
        self.indicators = self.indicators | indicators;
    }

    /// Clear indicator flags.
    pub fn indicator_clear(&mut self, indicators: u32)
        ensures
            final(self).spec_indicators() == old(self).spec_indicators() & !indicators,
            final(self).screen_state() == old(self).screen_state(),
            final(self).row() == old(self).row(),
            final(self).col() == old(self).col(),
            final(self).spec_width() == old(self).spec_width(),
            final(self).spec_height() == old(self).spec_height(),
            final(self).locked() == old(self).locked(),
            final(self).insert_pending() == old(self).insert_pending(),
            final(self).insert_position() == old(self).insert_position(),
            final(self).alarm() == old(self).alarm(),
    {
        self.indicators = self.indicators & !indicators;
    }

    /// Reset the modified flags of the input fields. The display keeps no
    /// field flags, so nothing changes.
    pub fn reset_non_bypass_mdt(&mut self)
        ensures
            *final(self) == *old(self),
    {
    }

    /// Reset every modified flag. The display keeps no field flags, so
    /// nothing changes.
    pub fn reset_all_mdt(&mut self)
        ensures
            *final(self) == *old(self),
    {
    }

    /// Null the modified flags of the input fields. The display keeps no
    /// field flags, so nothing changes.
    pub fn null_non_bypass_mdt(&mut self)
        ensures
            *final(self) == *old(self),
    {
    }

    /// Null the input fields' modified flags. The display keeps no field
    /// flags, so nothing changes.
    pub fn null_non_bypass_fields(&mut self)
        ensures
            *final(self) == *old(self),
    {
    }

    /// Lock the keyboard.
    pub fn lock_keyboard(&mut self)
        ensures
            final(self).model() == old(self).model().set_locked(true),
            final(self).locked(),
            final(self).screen_state() == (TerminalScreen { keyboard_locked: true, ..old(self).screen_state() }),
            final(self).row() == old(self).row(),
            final(self).col() == old(self).col(),
            final(self).spec_width() == old(self).spec_width(),
            final(self).spec_height() == old(self).spec_height(),
            final(self).spec_indicators() == old(self).spec_indicators(),
            final(self).insert_pending() == old(self).insert_pending(),
            final(self).insert_position() == old(self).insert_position(),
            final(self).alarm() == old(self).alarm(),
    {
        self.keyboard_locked = true;
        self.screen.lock_keyboard();
    }

    /// Unlock the keyboard.
    pub fn unlock_keyboard(&mut self)
        ensures
            final(self).model() == old(self).model().set_locked(false),
            !final(self).locked(),
            final(self).screen_state() == (TerminalScreen { keyboard_locked: false, ..old(self).screen_state() }),
            final(self).row() == old(self).row(),
            final(self).col() == old(self).col(),
            final(self).spec_width() == old(self).spec_width(),
            final(self).spec_height() == old(self).spec_height(),
            final(self).spec_indicators() == old(self).spec_indicators(),
            final(self).insert_pending() == old(self).insert_pending(),
            final(self).insert_position() == old(self).insert_position(),
            final(self).alarm() == old(self).alarm(),
    {
        self.keyboard_locked = false;
        self.screen.unlock_keyboard();
    }

    /// Sound the alarm: it stays pending until taken.
    pub fn beep(&mut self)
        ensures
            final(self).model() == old(self).model().beep(),
            final(self).alarm(),
            final(self).screen_state() == old(self).screen_state(),
            final(self).row() == old(self).row(),
            final(self).col() == old(self).col(),
            old(self).spec_width() == final(self).spec_width(),
            old(self).spec_height() == final(self).spec_height(),
            final(self).spec_indicators() == old(self).spec_indicators(),
            final(self).locked() == old(self).locked(),
            final(self).insert_pending() == old(self).insert_pending(),
            final(self).insert_position() == old(self).insert_position(),
    {
        self.alarm_pending = true;
    }

    /// Whether an alarm is pending; taking it clears it.
    pub fn take_alarm(&mut self) -> (r: bool)
        ensures
            r == old(self).alarm(),
            !final(self).alarm(),
            final(self).screen_state() == old(self).screen_state(),
            final(self).row() == old(self).row(),
            final(self).col() == old(self).col(),
            old(self).spec_width() == final(self).spec_width(),
            old(self).spec_height() == final(self).spec_height(),
            final(self).spec_indicators() == old(self).spec_indicators(),
            final(self).locked() == old(self).locked(),
            final(self).insert_pending() == old(self).insert_pending(),
            final(self).insert_position() == old(self).insert_position(),
    {
        let r = self.alarm_pending;
        self.alarm_pending = false;
        r
    }

    /// Move the cursor to (row, col) when that is on the display; the
    /// screen cursor follows.
    pub fn set_cursor(&mut self, row: usize, col: usize)
        requires
            old(self).wf(),
        ensures
            final(self).model() == old(self).model().set_cursor(row, col),
            final(self).wf(),
            old(self).same_settings(final(self)),
            final(self).screen_state().buffer == old(self).screen_state().buffer,
            final(self).screen_state().dirty == old(self).screen_state().dirty,
            final(self).screen_state().keyboard_locked == old(self).screen_state().keyboard_locked,
            row < old(self).spec_height() && col < old(self).spec_width() ==> {
                &&& (final(self).row(), final(self).col()) == (row, col)
                &&& (final(self).screen_state().cursor_x, final(self).screen_state().cursor_y) == (col, row)
            },
            !(row < old(self).spec_height() && col < old(self).spec_width()) ==> *final(self) == *old(self),
    {
        if row < self.height && col < self.width {
            self.cursor_row = row;
            self.cursor_col = col;
            self.screen.set_cursor(col, row);
        }
    }

    /// Blank the screen at 24 x 80: cursor home, keyboard locked, the
    /// system indicator set, insert, inhibit and field-exit-required
    /// cleared, no pending insert.
    pub fn clear_unit(&mut self)
        requires
            old(self).wf(),
        ensures
            final(self).model() == old(self).model().clear_to(80, 24, TN5250_DISPLAY_IND_INSERT | TN5250_DISPLAY_IND_INHIBIT | TN5250_DISPLAY_IND_FER, false),
            final(self).wf(),
            final(self).spec_width() == 80,
            final(self).spec_height() == 24,
            final(self).screen_state().buffer@ == Seq::new(1920, |i: int| TerminalChar::spec_blank()),
            final(self).screen_state().cursor_x == 0 && final(self).screen_state().cursor_y == 0,
            (final(self).row(), final(self).col()) == (0usize, 0usize),
            final(self).spec_indicators() == (old(self).spec_indicators() | TN5250_DISPLAY_IND_X_SYSTEM)
                & !(TN5250_DISPLAY_IND_INSERT | TN5250_DISPLAY_IND_INHIBIT | TN5250_DISPLAY_IND_FER),
            final(self).locked(),
            !final(self).insert_pending(),
            final(self).insert_position() == old(self).insert_position(),
            final(self).alarm() == old(self).alarm(),
    {
        self.width = 80;
        self.height = 24;
        self.screen.resize(80, 24, false);
        self.screen.clear();
        self.cursor_row = 0;
        self.cursor_col = 0;
        self.indicator_set(TN5250_DISPLAY_IND_X_SYSTEM);
        self.keyboard_locked = true;
        self.indicator_clear(TN5250_DISPLAY_IND_INSERT | TN5250_DISPLAY_IND_INHIBIT | TN5250_DISPLAY_IND_FER);
        self.pending_insert = false;
    }

    /// Blank the screen at 27 x 132: cursor home, keyboard locked, the
    /// system indicator set, insert cleared; a pending insert stays.
    pub fn clear_unit_alternate(&mut self)
        requires
            old(self).wf(),
        ensures
            final(self).model() == old(self).model().clear_to(132, 27, TN5250_DISPLAY_IND_INSERT, true),
            final(self).wf(),
            final(self).spec_width() == 132,
            final(self).spec_height() == 27,
            final(self).screen_state().buffer@ == Seq::new(3564, |i: int| TerminalChar::spec_blank()),
            final(self).screen_state().cursor_x == 0 && final(self).screen_state().cursor_y == 0,
            (final(self).row(), final(self).col()) == (0usize, 0usize),
            final(self).spec_indicators() == (old(self).spec_indicators() | TN5250_DISPLAY_IND_X_SYSTEM)
                & !TN5250_DISPLAY_IND_INSERT,
            final(self).locked(),
            final(self).insert_pending() == old(self).insert_pending(),
            final(self).insert_position() == old(self).insert_position(),
            final(self).alarm() == old(self).alarm(),
    {
        self.width = 132;
        self.height = 27;
        self.screen.resize(132, 27, false);
        self.screen.clear_alternate();
        self.cursor_row = 0;
        self.cursor_col = 0;
        self.indicator_set(TN5250_DISPLAY_IND_X_SYSTEM);
        self.keyboard_locked = true;
        self.indicator_clear(TN5250_DISPLAY_IND_INSERT);
    }

    /// Forget the field formatting (see `TerminalScreen::clear_format_table`).
    pub fn clear_format_table(&mut self)
        requires
            old(self).wf(),
        ensures
            final(self).model() == old(self).model().clear_format_table(),
            final(self).wf(),
            old(self).same_settings(final(self)),
            final(self).row() == old(self).row(),
            final(self).col() == old(self).col(),
            final(self).screen_state().buffer@.len() == old(self).screen_state().buffer@.len(),
            forall|i: int| 0 <= i < old(self).screen_state().buffer@.len() ==> #[trigger] final(self).screen_state().buffer@[i] == (TerminalChar {
                character: old(self).screen_state().buffer@[i].character,
                attribute: CharAttribute::Normal,
            }),
            final(self).screen_state().cursor_x == old(self).screen_state().cursor_x,
            final(self).screen_state().cursor_y == old(self).screen_state().cursor_y,
    {
        self.screen.clear_format_table();
        assert(self.model().cells =~= old(self).model().clear_format_table().cells);
    }

    /// Remember a position for the cursor to go home to.
    pub fn set_pending_insert(&mut self, row: usize, col: usize)
        ensures
            final(self).model() == old(self).model().set_pending_insert(row, col),
            final(self).insert_pending(),
            final(self).insert_position() == (row, col),
            final(self).screen_state() == old(self).screen_state(),
            final(self).row() == old(self).row(),
            final(self).col() == old(self).col(),
            final(self).spec_width() == old(self).spec_width(),
            final(self).spec_height() == old(self).spec_height(),
            final(self).spec_indicators() == old(self).spec_indicators(),
            final(self).locked() == old(self).locked(),
            final(self).alarm() == old(self).alarm(),
    {
        self.pending_insert = true;
        self.insert_cursor_row = row;
        self.insert_cursor_col = col;
    }

    /// Remember a position for the cursor to go home to.
    pub fn set_pending_insert_cursor(&mut self, row: usize, col: usize)
        ensures
            final(self).model() == old(self).model().set_pending_insert(row, col),
            final(self).insert_pending(),
            final(self).insert_position() == (row, col),
            final(self).screen_state() == old(self).screen_state(),
            final(self).row() == old(self).row(),
            final(self).col() == old(self).col(),
            final(self).spec_width() == old(self).spec_width(),
            final(self).spec_height() == old(self).spec_height(),
            final(self).spec_indicators() == old(self).spec_indicators(),
            final(self).locked() == old(self).locked(),
            final(self).alarm() == old(self).alarm(),
    {
        self.set_pending_insert(row, col);
    }

    /// Write a character (EBCDIC, shown as its ASCII counterpart) at the
    /// cursor when the cursor is on the display, and advance the cursor:
    /// next column, else start of the next row, staying on the last row.
    pub fn addch(&mut self, ch: u8)
        requires
            old(self).wf(),
        ensures
            final(self).model() == old(self).model().addch(ch),
            final(self).wf(),
            old(self).same_settings(final(self)),
            final(self).screen_state().keyboard_locked == old(self).screen_state().keyboard_locked,
            old(self).row() < old(self).spec_height() && old(self).col() < old(self).spec_width() ==> {
                &&& final(self).screen_state().buffer@ == old(self).screen_state().buffer@.update(
                    old(self).row() * old(self).spec_width() + old(self).col(),
                    TerminalChar { character: spec_ebcdic_to_ascii(ch), attribute: CharAttribute::Normal },
                )
                &&& (final(self).row(), final(self).col()) == next_cursor(old(self).row(), old(self).col(), old(self).spec_width(), old(self).spec_height())
                &&& final(self).screen_state().cursor_x == final(self).col()
                &&& final(self).screen_state().cursor_y == final(self).row()
                &&& final(self).screen_state().dirty
            },
            !(old(self).row() < old(self).spec_height() && old(self).col() < old(self).spec_width()) ==> *final(self) == *old(self),
    {
        let ascii_char = self.ebcdic_to_ascii(ch);
        if self.cursor_row < self.height && self.cursor_col < self.width {
            self.screen.move_cursor(self.cursor_col, self.cursor_row);
            self.screen.write_char(ascii_char);
            self.cursor_col = self.cursor_col + 1;
            if self.cursor_col >= self.width {
                self.cursor_col = 0;
                self.cursor_row = self.cursor_row + 1;
                if self.cursor_row >= self.height {
                    self.cursor_row = self.height - 1;
                }
            }
            self.screen.set_cursor(self.cursor_col, self.cursor_row);
        }
    }

    /// Write a character at the cursor (see `addch`).
    pub fn add_char(&mut self, ch: u8)
        requires
            old(self).wf(),
        ensures
            final(self).model() == old(self).model().addch(ch),
            final(self).wf(),
            old(self).same_settings(final(self)),
            final(self).screen_state().keyboard_locked == old(self).screen_state().keyboard_locked,
            old(self).row() < old(self).spec_height() && old(self).col() < old(self).spec_width() ==> {
                &&& final(self).screen_state().buffer@ == old(self).screen_state().buffer@.update(
                    old(self).row() * old(self).spec_width() + old(self).col(),
                    TerminalChar { character: spec_ebcdic_to_ascii(ch), attribute: CharAttribute::Normal },
                )
                &&& (final(self).row(), final(self).col()) == next_cursor(old(self).row(), old(self).col(), old(self).spec_width(), old(self).spec_height())
                &&& final(self).screen_state().cursor_x == final(self).col()
                &&& final(self).screen_state().cursor_y == final(self).row()
                &&& final(self).screen_state().dirty
            },
            !(old(self).row() < old(self).spec_height() && old(self).col() < old(self).spec_width()) ==> *final(self) == *old(self),
    {
        self.addch(ch);
    }

    /// Blank the screen cells from (start_row, start_col) through
    /// (end_row, end_col) in reading order.
    pub fn erase_region(&mut self, start_row: usize, start_col: usize, end_row: usize, end_col: usize, _left_edge: usize, _right_edge: usize)
        requires
            old(self).wf(),
            start_row * old(self).spec_width() + start_col <= usize::MAX,
            end_row * old(self).spec_width() + end_col <= usize::MAX,
        ensures
            final(self).model() == old(self).model().erase_region(start_row, start_col, end_row, end_col),
            final(self).wf(),
            old(self).same_settings(final(self)),
            final(self).row() == old(self).row(),
            final(self).col() == old(self).col(),
            final(self).screen_state().buffer@.len() == old(self).screen_state().buffer@.len(),
            forall|i: int| 0 <= i < old(self).screen_state().buffer@.len() ==> #[trigger] final(self).screen_state().buffer@[i] == if start_row
                * old(self).spec_width() + start_col <= i <= end_row * old(self).spec_width() + end_col {
                TerminalChar::spec_blank()
            } else {
                old(self).screen_state().buffer@[i]
            },
    {
        self.screen.erase_region(start_row, start_col, end_row, end_col);
        assert(self.model().cells =~= old(self).model().erase_region(start_row, start_col, end_row, end_col).cells);
    }

    /// Roll rows `top` through `bottom` by `lines` (see `TerminalScreen::roll`).
    pub fn roll(&mut self, top: u8, bottom: u8, lines: i8)
        requires
            old(self).wf(),
        ensures
            final(self).model() == old(self).model().roll(top, bottom, lines as int),
            final(self).wf(),
            old(self).same_settings(final(self)),
            final(self).row() == old(self).row(),
            final(self).col() == old(self).col(),
            forall|x: int, y: int|
                0 <= x < old(self).spec_width() && 0 <= y < old(self).spec_height() ==> #[trigger] final(self).screen_state().cell(x, y)
                    == rolled_cell(old(self).screen_state().buffer@, old(self).spec_width() as int, old(self).spec_height() as int, top as int, bottom as int, lines as int, x, y),
    {
        self.screen.roll(top as usize, bottom as usize, lines);
        let ghost w = self.width as int;
        let ghost h = self.height as int;
        let ghost old_cells = old(self).screen.buffer@;
        assert forall|i: int| 0 <= i < self.screen.buffer@.len() implies #[trigger] self.screen.buffer@[i] == rolled_cell(
            old_cells, w, h, top as int, bottom as int, lines as int, i % w, i / w,
        ) by {
            lemma_cell_of_index(i, w, h);
            assert(self.screen.cell(i % w, i / w) == self.screen.buffer@[i]);
        }
        assert(self.model().cells =~= old(self).model().roll(top, bottom, lines as int).cells);
    }

    /// The EBCDIC code of each screen position in reading order (each
    /// character cut to its low eight bits, then converted).
    pub fn get_screen_data(&self) -> (r: Vec<u8>)
        requires
            self.wf(),
        ensures
            r@ == self.screen_state().buffer@.map_values(|c: TerminalChar| spec_ascii_byte_to_ebcdic(c.character as u8)),
    {
        let mut data: Vec<u8> = Vec::new();
        let ghost cells = self.screen.buffer@;
        let mut row: usize = 0;
        while row < self.height
            invariant
                self.wf(),
                cells == self.screen.buffer@,
                row <= self.height,
                data@.len() == row * self.width,
                forall|k: int| 0 <= k < data@.len() ==> #[trigger] data@[k] == spec_ascii_byte_to_ebcdic(cells[k].character as u8),
            decreases self.height - row,
        {
            let mut col: usize = 0;
            while col < self.width
                invariant
                    self.wf(),
                    cells == self.screen.buffer@,
                    row < self.height,
                    col <= self.width,
                    data@.len() == row * self.width + col,
                    forall|k: int| 0 <= k < data@.len() ==> #[trigger] data@[k] == spec_ascii_byte_to_ebcdic(cells[k].character as u8),
                decreases self.width - col,
            {
                proof {
                    lemma_index_in_grid(col as int, row as int, self.width as int, self.height as int);
                }
                let index = self.screen.index(col, row);
                let ch = self.screen.buffer[index].character;
                let ebcdic_byte = self.ascii_to_ebcdic(#[verifier::truncate] (ch as u8));
                data.push(ebcdic_byte);
                col = col + 1;
            }
            assert((row + 1) * self.width == row * self.width + self.width) by (nonlinear_arith);
            row = row + 1;
        }
        assert(data@.len() == self.width * self.height) by (nonlinear_arith)
            requires
                data@.len() == row * self.width,
                row == self.height,
        ;
        assert(data@ =~= cells.map_values(|c: TerminalChar| spec_ascii_byte_to_ebcdic(c.character as u8)));
        data
    }

    /// The EBCDIC code of an ASCII byte.
    fn ascii_to_ebcdic(&self, ascii: u8) -> (r: u8)
        ensures
            r == spec_ascii_byte_to_ebcdic(ascii),
    {
        ascii_byte_to_ebcdic(ascii)
    }

    /// The character an EBCDIC byte shows.
    fn ebcdic_to_ascii(&self, ebcdic: u8) -> (r: char)
        ensures
            r == spec_ebcdic_to_ascii(ebcdic),
    {
        ebcdic_to_ascii(ebcdic)
    }

    /// Make the screen a blank 24 x 80 with the cursor home and the
    /// keyboard unlocked.
    pub fn initialize_5250_screen(&mut self)
        requires
            old(self).wf(),
        ensures
            final(self).wf(),
            final(self).spec_width() == 80,
            final(self).spec_height() == 24,
            final(self).screen_state().buffer@ == Seq::new(1920, |i: int| TerminalChar::spec_blank()),
            (final(self).row(), final(self).col()) == (0usize, 0usize),
            final(self).screen_state().cursor_x == 0 && final(self).screen_state().cursor_y == 0,
            !final(self).locked(),
            final(self).spec_indicators() == old(self).spec_indicators(),
            final(self).insert_pending() == old(self).insert_pending(),
            final(self).insert_position() == old(self).insert_position(),
            final(self).alarm() == old(self).alarm(),
    {
        self.width = 80;
        self.height = 24;
        self.screen.resize(80, 24, false);
        self.screen.clear();
        self.set_cursor(0, 0);
        self.unlock_keyboard();
    }

    /// Send the cursor home: to the pending insert position when there is
    /// one (the screen cursor takes it with row and column exchanged), else
    /// to the first cell in reading order that is not protected, else to
    /// the origin.
    pub fn set_cursor_home(&mut self)
        requires
            old(self).wf(),
        ensures
            final(self).wf(),
            old(self).same_settings(final(self)),
            final(self).screen_state().buffer == old(self).screen_state().buffer,
            old(self).insert_pending() ==> {
                &&& (final(self).row(), final(self).col()) == old(self).insert_position()
                &&& (final(self).screen_state().cursor_x, final(self).screen_state().cursor_y) == if old(self).insert_position().0
                    < old(self).spec_width() && old(self).insert_position().1 < old(self).spec_height() {
                    old(self).insert_position()
                } else {
                    (old(self).screen_state().cursor_x, old(self).screen_state().cursor_y)
                }
            },
            !old(self).insert_pending() ==> {
                ||| (exists|r: int, c: int|
                    0 <= r < old(self).spec_height() && 0 <= c < old(self).spec_width()
                        && #[trigger] old(self).screen_state().cell(c, r).attribute != CharAttribute::Protected
                        && (forall|r2: int, c2: int| 0 <= r2 < old(self).spec_height() && 0 <= c2 < old(self).spec_width()
                            && (r2 < r || (r2 == r && c2 < c)) ==> #[trigger] old(self).screen_state().cell(c2, r2).attribute == CharAttribute::Protected)
                        && final(self).row() == r && final(self).col() == c)
                ||| ((forall|r2: int, c2: int| 0 <= r2 < old(self).spec_height() && 0 <= c2 < old(self).spec_width()
                    ==> #[trigger] old(self).screen_state().cell(c2, r2).attribute == CharAttribute::Protected)
                    && (final(self).row(), final(self).col()) == if 0 < old(self).spec_height() && 0 < old(self).spec_width() {
                        (0usize, 0usize)
                    } else {
                        (old(self).row(), old(self).col())
                    })
            },
    {
        if self.pending_insert {
            self.cursor_row = self.insert_cursor_row;
            self.cursor_col = self.insert_cursor_col;
            self.screen.set_cursor(self.cursor_row, self.cursor_col);
            return;
        }
        let ghost s0 = self.screen;
        let mut row: usize = 0;
        while row < self.height
            invariant
                self.wf(),
                self.screen == s0,
                *self == *old(self),
                !self.pending_insert,
                row <= self.height,
                forall|r2: int, c2: int| 0 <= r2 < row && 0 <= c2 < self.width ==> #[trigger] s0.cell(c2, r2).attribute == CharAttribute::Protected,
            decreases self.height - row,
        {
            let mut col: usize = 0;
            while col < self.width
                invariant
                    self.wf(),
                    self.screen == s0,
                    *self == *old(self),
                    !self.pending_insert,
                    row < self.height,
                    col <= self.width,
                    forall|r2: int, c2: int| 0 <= r2 < self.height && 0 <= c2 < self.width && (r2 < row || (r2 == row && c2 < col))
                        ==> #[trigger] s0.cell(c2, r2).attribute == CharAttribute::Protected,
                decreases self.width - col,
            {
                proof {
                    lemma_index_in_grid(col as int, row as int, self.width as int, self.height as int);
                }
                let index = self.screen.index(col, row);
                if self.screen.buffer[index].attribute != CharAttribute::Protected {
                    assert(s0.cell(col as int, row as int).attribute != CharAttribute::Protected);
                    self.set_cursor(row, col);
                    assert(old(self).screen_state().cell(col as int, row as int).attribute != CharAttribute::Protected);
                    return;
                }
                col = col + 1;
            }
            row = row + 1;
        }
        self.set_cursor(0, 0);
    }

    /// Put EBCDIC data on the screen from the cursor, each byte as its ASCII
    /// character with the normal attribute, advancing the cursor like
    /// `addch` (bytes are skipped while the cursor is off the display); the
    /// screen cursor is then set with row and column exchanged.
    pub fn add_5250_data(&mut self, data: &[u8]) -> (r: Result<(), String>)
        requires
            old(self).wf(),
        ensures
            r is Ok,
            final(self).wf(),
            old(self).same_settings(final(self)),
            ({
                let t = put_data(old(self).screen_state().buffer@, old(self).row(), old(self).col(), old(self).spec_width(), old(self).spec_height(), data@);
                &&& final(self).screen_state().buffer@ == t.0
                &&& (final(self).row(), final(self).col()) == (t.1, t.2)
            }),
    {
        let n = data.len();
        let mut i: usize = 0;
        while i < n
            invariant
                self.wf(),
                old(self).same_settings(self),
                n == data@.len(),
                i <= n,
                ({
                    let t = put_data(old(self).screen_state().buffer@, old(self).row(), old(self).col(), old(self).spec_width(), old(self).spec_height(), data@.take(i as int));
                    &&& self.screen.buffer@ == t.0
                    &&& (self.cursor_row, self.cursor_col) == (t.1, t.2)
                }),
            decreases n - i,
        {
            proof {
                assert(data@.take(i + 1).drop_last() =~= data@.take(i as int));
            }
            let byte = data[i];
            let ascii_char = self.ebcdic_to_ascii(byte);
            if self.cursor_row < self.height && self.cursor_col < self.width {
                proof {
                    lemma_index_in_grid(self.cursor_col as int, self.cursor_row as int, self.width as int, self.height as int);
                }
                let index = self.screen.index(self.cursor_col, self.cursor_row);
                self.screen.buffer.set(index, TerminalChar { character: ascii_char, attribute: CharAttribute::Normal });
                self.cursor_col = self.cursor_col + 1;
                if self.cursor_col >= self.width {
                    self.cursor_col = 0;
                    self.cursor_row = self.cursor_row + 1;
                    if self.cursor_row >= self.height {
                        self.cursor_row = self.height - 1;
                    }
                }
            }
            i = i + 1;
        }
        assert(data@.take(n as int) =~= data@);
        self.screen.set_cursor(self.cursor_row, self.cursor_col);
        Ok(())
    }

    /// Give the cell at the cursor an attribute, when the cursor is on the
    /// display.
    fn set_attribute_at_cursor(&mut self, attribute: CharAttribute)
        requires
            old(self).wf(),
        ensures
            final(self).wf(),
            old(self).same_settings(final(self)),
            final(self).row() == old(self).row(),
            final(self).col() == old(self).col(),
            final(self).screen_state().cursor_x == old(self).screen_state().cursor_x,
            final(self).screen_state().cursor_y == old(self).screen_state().cursor_y,
            final(self).screen_state().keyboard_locked == old(self).screen_state().keyboard_locked,
            old(self).row() < old(self).spec_height() && old(self).col() < old(self).spec_width() ==> {
                let i = old(self).row() * old(self).spec_width() + old(self).col();
                &&& final(self).screen_state().buffer@ == old(self).screen_state().buffer@.update(
                    i,
                    TerminalChar { attribute, ..old(self).screen_state().buffer@[i] },
                )
                &&& final(self).screen_state().dirty
            },
            !(old(self).row() < old(self).spec_height() && old(self).col() < old(self).spec_width()) ==> *final(self) == *old(self),
    {
        if self.cursor_row < self.height && self.cursor_col < self.width {
            proof {
                lemma_index_in_grid(self.cursor_col as int, self.cursor_row as int, self.width as int, self.height as int);
            }
            let index = self.screen.index(self.cursor_col, self.cursor_row);
            let mut cell = self.screen.buffer[index];
            cell.attribute = attribute;
            self.screen.buffer.set(index, cell);
            self.screen.dirty = true;
        }
    }

    /// Show a blinking cursor at the cursor cell (normal when turned off).
    pub fn set_blinking_cursor(&mut self, blinking: bool)
        requires
            old(self).wf(),
        ensures
            final(self).wf(),
            old(self).same_settings(final(self)),
            final(self).row() == old(self).row(),
            final(self).col() == old(self).col(),
            attribute_set_at_cursor(*old(self), *final(self), if blinking { CharAttribute::BlinkingCursor } else { CharAttribute::Normal }),
    {
        self.set_attribute_at_cursor(if blinking { CharAttribute::BlinkingCursor } else { CharAttribute::Normal });
    }

    /// Whether the cell at the cursor shows a blinking cursor.
    pub fn is_cursor_blinking(&self) -> (r: bool)
        requires
            self.wf(),
        ensures
            r == (self.row() < self.spec_height() && self.col() < self.spec_width()
                && self.screen_state().cell(self.col() as int, self.row() as int).attribute == CharAttribute::BlinkingCursor),
    {
        if self.cursor_row < self.height && self.cursor_col < self.width {
            proof {
                lemma_index_in_grid(self.cursor_col as int, self.cursor_row as int, self.width as int, self.height as int);
            }
            let index = self.screen.index(self.cursor_col, self.cursor_row);
            self.screen.buffer[index].attribute == CharAttribute::BlinkingCursor
        } else {
            false
        }
    }

    /// Show the cursor cell in reverse image (normal when turned off).
    pub fn set_reverse_image(&mut self, reverse: bool)
        requires
            old(self).wf(),
        ensures
            final(self).wf(),
            old(self).same_settings(final(self)),
            final(self).row() == old(self).row(),
            final(self).col() == old(self).col(),
            attribute_set_at_cursor(*old(self), *final(self), if reverse { CharAttribute::ReverseImage } else { CharAttribute::Normal }),
    {
        self.set_attribute_at_cursor(if reverse { CharAttribute::ReverseImage } else { CharAttribute::Normal });
    }

    /// Underline the cursor cell (normal when turned off).
    pub fn set_underline(&mut self, underline: bool)
        requires
            old(self).wf(),
        ensures
            final(self).wf(),
            old(self).same_settings(final(self)),
            final(self).row() == old(self).row(),
            final(self).col() == old(self).col(),
            attribute_set_at_cursor(*old(self), *final(self), if underline { CharAttribute::Underline } else { CharAttribute::Normal }),
    {
        self.set_attribute_at_cursor(if underline { CharAttribute::Underline } else { CharAttribute::Normal });
    }

    /// Colors are not represented on this display; nothing changes.
    pub fn set_color_attributes(&mut self, _fg_color: u8, _bg_color: u8)
        ensures
            *final(self) == *old(self),
    {
    }

    /// Fonts are not represented on this display; nothing changes.
    pub fn set_font_attributes(&mut self, _bold: bool, _italic: bool, _underline: bool)
        ensures
            *final(self) == *old(self),
    {
    }

    /// Show the cursor cell at an intensity: 1 high, 2 intensified, anything
    /// else normal.
    pub fn set_intensity(&mut self, intensity: u8)
        requires
            old(self).wf(),
        ensures
            final(self).wf(),
            old(self).same_settings(final(self)),
            final(self).row() == old(self).row(),
            final(self).col() == old(self).col(),
            attribute_set_at_cursor(*old(self), *final(self), if intensity == 1 {
                CharAttribute::HighIntensity
            } else if intensity == 2 {
                CharAttribute::Intensified
            } else {
                CharAttribute::Normal
            }),
    {
        let attribute = match intensity {
            0x00 => CharAttribute::Normal,
            0x01 => CharAttribute::HighIntensity,
            0x02 => CharAttribute::Intensified,
            _ => CharAttribute::Normal,
        };
        self.set_attribute_at_cursor(attribute);
    }

    /// Show the cursor cell in reverse video (normal when turned off).
    pub fn set_reverse_video(&mut self, reverse: bool)
        requires
            old(self).wf(),
        ensures
            final(self).wf(),
            old(self).same_settings(final(self)),
            final(self).row() == old(self).row(),
            final(self).col() == old(self).col(),
            attribute_set_at_cursor(*old(self), *final(self), if reverse { CharAttribute::ReverseVideo } else { CharAttribute::Normal }),
    {
        self.set_attribute_at_cursor(if reverse { CharAttribute::ReverseVideo } else { CharAttribute::Normal });
    }

    /// Make the cursor cell blink (normal when turned off).
    pub fn set_blink(&mut self, blink: bool)
        requires
            old(self).wf(),
        ensures
            final(self).wf(),
            old(self).same_settings(final(self)),
            final(self).row() == old(self).row(),
            final(self).col() == old(self).col(),
            attribute_set_at_cursor(*old(self), *final(self), if blink { CharAttribute::Blink } else { CharAttribute::Normal }),
    {
        self.set_attribute_at_cursor(if blink { CharAttribute::Blink } else { CharAttribute::Normal });
    }

    /// A default attribute for new fields is not kept; nothing changes.
    pub fn set_default_attribute(&mut self, _attr: u8)
        ensures
            *final(self) == *old(self),
    {
    }
}

/// The display after giving the cursor cell an attribute (nothing changes
/// when the cursor is off the display).
pub open spec fn attribute_set_at_cursor(before: Display, after: Display, attribute: CharAttribute) -> bool {
    if before.row() < before.spec_height() && before.col() < before.spec_width() {
        let i = before.row() * before.spec_width() + before.col();
        &&& after.screen_state().buffer@ == before.screen_state().buffer@.update(
            i,
            TerminalChar { attribute, ..before.screen_state().buffer@[i] },
        )
        &&& after.screen_state().dirty
        &&& after.screen_state().cursor_x == before.screen_state().cursor_x
        &&& after.screen_state().cursor_y == before.screen_state().cursor_y
    } else {
        after == before
    }
}

/// The screen contents and cursor (row, column) after putting one EBCDIC
/// byte on the screen (see `add_5250_data`).
pub open spec fn put_byte(cells: Seq<TerminalChar>, row: usize, col: usize, width: usize, height: usize, b: u8) -> (Seq<TerminalChar>, usize, usize) {
    if row < height && col < width {
        let (nr, nc) = next_cursor(row, col, width, height);
        (cells.update(row * width + col, TerminalChar { character: spec_ebcdic_to_ascii(b), attribute: CharAttribute::Normal }), nr, nc)
    } else {
        (cells, row, col)
    }
}

/// The screen contents and cursor after putting EBCDIC data on the screen.
pub open spec fn put_data(cells: Seq<TerminalChar>, row: usize, col: usize, width: usize, height: usize, data: Seq<u8>) -> (Seq<TerminalChar>, usize, usize)
    decreases data.len(),
{
    if data.len() == 0 {
        (cells, row, col)
    } else {
        let (c2, r2, k2) = put_data(cells, row, col, width, height, data.drop_last());
        put_byte(c2, r2, k2, width, height, data.last())
    }
}

impl Default for Display {
    fn default() -> (r: Self)
        ensures
            r.wf(),
            r.spec_width() == 80,
            r.spec_height() == 24,
            r.screen_state().buffer@ == Seq::new(1920, |i: int| TerminalChar::spec_blank()),
            (r.row(), r.col()) == (0usize, 0usize),
            r.spec_indicators() == 0,
            r.locked(),
            !r.insert_pending(),
            !r.alarm(),
    {
        Self::new()
    }
}

/// An index of a `width` x `height` grid is the cell (index % width,
/// index / width), which lies on the grid.
pub proof fn lemma_cell_of_index(i: int, width: int, height: int)
    requires
        0 <= width,
        0 <= i < width * height,
    ensures
        0 < width,
        0 <= i % width < width,
        0 <= i / width < height,
        (i / width) * width + i % width == i,
{
    assert(0 < width) by (nonlinear_arith)
        requires 0 <= width, 0 <= i < width * height;
    assert(0 <= i % width < width) by (nonlinear_arith)
        requires 0 < width;
    assert((i / width) * width + i % width == i) by (nonlinear_arith)
        requires 0 < width;
    assert(0 <= i / width < height) by (nonlinear_arith)
        requires 0 < width, 0 <= i < width * height;
}

} // verus!
