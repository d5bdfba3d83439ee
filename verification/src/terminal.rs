//! The character screen a 5250 display draws on: a row-major grid of
//! characters with attributes, a cursor, and the keyboard lock.

use vstd::prelude::*;
use crate::text::string_push;

verus! {

/// Width of the standard screen.
pub const TERMINAL_WIDTH: usize = 80;
/// Height of the standard screen.
pub const TERMINAL_HEIGHT: usize = 24;

/// How a character cell is shown.
#[derive(Debug, Clone, Copy, PartialEq, Eq, Structural)]
pub enum CharAttribute {
    Normal,
    Intensified,
    NonDisplay,
    Protected,
    Numeric,
    Mandatory,
    BlinkingCursor,
    ReverseImage,
    Underline,
    HighIntensity,
    ReverseVideo,
    Blink,
}

impl CharAttribute {
    /// The attribute an attribute byte selects.
    pub open spec fn spec_from_byte(value: u8) -> Self {
        if value == 0x20 {
            CharAttribute::Protected
        } else if value == 0x10 {
            CharAttribute::Numeric
        } else if value == 0x08 {
            CharAttribute::Intensified
        } else if value == 0x0C {
            CharAttribute::Mandatory
        } else if value == 0x04 {
            CharAttribute::NonDisplay
        } else {
            CharAttribute::Normal
        }
    }

    /// The attribute an attribute byte selects: protected, numeric,
    /// intensified, mandatory or non-display; any other byte is normal.
    pub fn from_u8(value: u8) -> (r: Self)
        ensures
            r == Self::spec_from_byte(value),
    {
        match value {
            0x20 => CharAttribute::Protected,
            0x10 => CharAttribute::Numeric,
            0x08 => CharAttribute::Intensified,
            0x0C => CharAttribute::Mandatory,
            0x04 => CharAttribute::NonDisplay,
            _ => CharAttribute::Normal,
        }
    }
}

/// One cell of the screen.
#[derive(Debug, Clone, Copy, PartialEq, Eq, Structural)]
pub struct TerminalChar {
    pub character: char,
    pub attribute: CharAttribute,
}

impl TerminalChar {
    /// A blank cell.
    pub open spec fn spec_blank() -> Self {
        TerminalChar { character: ' ', attribute: CharAttribute::Normal }
    }

    /// A blank cell.
    pub fn blank() -> (r: Self)
        ensures
            r == Self::spec_blank(),
    {
        TerminalChar { character: ' ', attribute: CharAttribute::Normal }
    }
}

impl Default for TerminalChar {
    fn default() -> (r: Self)
        ensures
            r == Self::spec_blank(),
    {
        Self::blank()
    }
}

/// A grid of `width` x `height` cells stored row by row.
#[derive(Debug, Clone)]
pub struct TerminalScreen {
    pub buffer: Vec<TerminalChar>,
    pub width: usize,
    pub height: usize,
    pub cursor_x: usize,
    pub cursor_y: usize,
    /// Whether the screen changed since it was last drawn.
    pub dirty: bool,
    pub keyboard_locked: bool,
}

/// The characters of a row.
pub open spec fn row_chars(cells: Seq<TerminalChar>, width: int, y: int) -> Seq<char> {
    Seq::new(width as nat, |x: int| cells[y * width + x].character)
}

/// The rows' characters, each followed by a line break.
pub open spec fn screen_text(cells: Seq<TerminalChar>, width: int, rows: nat) -> Seq<char>
    decreases rows,
{
    if rows == 0 {
        Seq::empty()
    } else {
        screen_text(cells, width, (rows - 1) as nat) + row_chars(cells, width, rows - 1).push('\n')
    }
}

impl TerminalScreen {
    /// The buffer holds one cell per position and the dimensions multiply
    /// within a machine word.
    pub open spec fn wf(&self) -> bool {
        &&& self.width * self.height <= usize::MAX
        &&& self.buffer@.len() == self.width * self.height
    }

    /// The cell at (x, y).
    pub open spec fn cell(&self, x: int, y: int) -> TerminalChar {
        self.buffer@[y * self.width + x]
    }

    /// A standard 80 x 24 screen.
    pub fn new() -> (r: Self)
        ensures
            r.wf(),
            r.width == TERMINAL_WIDTH,
            r.height == TERMINAL_HEIGHT,
            r.buffer@ == Seq::new((TERMINAL_WIDTH * TERMINAL_HEIGHT) as nat, |i: int| TerminalChar::spec_blank()),
            r.cursor_x == 0,
            r.cursor_y == 0,
            r.dirty,
            !r.keyboard_locked,
    {
        Self::new_with_size(TERMINAL_WIDTH, TERMINAL_HEIGHT)
    }

    /// A blank screen of the given size with the cursor at the origin.
    pub fn new_with_size(width: usize, height: usize) -> (r: Self)
        requires
            width * height <= usize::MAX,
        ensures
            r.wf(),
            r.width == width,
            r.height == height,
            r.buffer@ == Seq::new((width * height) as nat, |i: int| TerminalChar::spec_blank()),
            r.cursor_x == 0,
            r.cursor_y == 0,
            r.dirty,
            !r.keyboard_locked,
    {
        let buffer = blank_cells(width * height);
        TerminalScreen { buffer, width, height, cursor_x: 0, cursor_y: 0, dirty: true, keyboard_locked: false }
    }

    /// The buffer position of (x, y).
    pub fn index(&self, x: usize, y: usize) -> (r: usize)
        requires
            y * self.width + x <= usize::MAX,
        ensures
            r == y * self.width + x,
    {
        y * self.width + x
    }

    /// Blank every cell and home the cursor.
    pub fn clear(&mut self)
        ensures
            old(self).wf() ==> final(self).wf(),
            final(self).buffer@ == Seq::new(old(self).buffer@.len(), |i: int| TerminalChar::spec_blank()),
            final(self).width == old(self).width,
            final(self).height == old(self).height,
            final(self).cursor_x == 0,
            final(self).cursor_y == 0,
            final(self).dirty,
            final(self).keyboard_locked == old(self).keyboard_locked,
    {
        self.buffer = blank_cells(self.buffer.len());
        self.cursor_x = 0;
        self.cursor_y = 0;
        self.dirty = true;
    }

    /// Clear for the alternate screen size (the same as `clear`).
    pub fn clear_alternate(&mut self)
        requires
            old(self).wf(),
        ensures
            final(self).wf(),
            final(self).buffer@ == Seq::new(old(self).buffer@.len(), |i: int| TerminalChar::spec_blank()),
            final(self).width == old(self).width,
            final(self).height == old(self).height,
            final(self).cursor_x == 0,
            final(self).cursor_y == 0,
            final(self).dirty,
            final(self).keyboard_locked == old(self).keyboard_locked,
    {
        self.clear();
    }

    /// Forget the field formatting: every cell's attribute becomes normal,
    /// characters stay.
    pub fn clear_format_table(&mut self)
        requires
            old(self).wf(),
        ensures
            final(self).wf(),
            final(self).buffer@.len() == old(self).buffer@.len(),
            forall|i: int| 0 <= i < old(self).buffer@.len() ==> #[trigger] final(self).buffer@[i] == (TerminalChar {
                character: old(self).buffer@[i].character,
                attribute: CharAttribute::Normal,
            }),
            final(self).width == old(self).width,
            final(self).height == old(self).height,
            final(self).cursor_x == old(self).cursor_x,
            final(self).cursor_y == old(self).cursor_y,
            final(self).dirty,
            final(self).keyboard_locked == old(self).keyboard_locked,
    {
        let mut i: usize = 0;
        while i < self.buffer.len()
            invariant
                self.buffer@.len() == old(self).buffer@.len(),
                self.width == old(self).width,
                self.height == old(self).height,
                self.cursor_x == old(self).cursor_x,
                self.cursor_y == old(self).cursor_y,
                self.keyboard_locked == old(self).keyboard_locked,
                i <= self.buffer@.len(),
                forall|j: int| 0 <= j < i ==> #[trigger] self.buffer@[j] == (TerminalChar {
                    character: old(self).buffer@[j].character,
                    attribute: CharAttribute::Normal,
                }),
                forall|j: int| i <= j < self.buffer@.len() ==> #[trigger] self.buffer@[j] == old(self).buffer@[j],
            decreases self.buffer@.len() - i,
        {
            let c = self.buffer[i].character;
            self.buffer.set(i, TerminalChar { character: c, attribute: CharAttribute::Normal });
            i = i + 1;
        }
        self.dirty = true;
    }

    /// Move the cursor to (x, y) when that is on the screen.
    pub fn set_cursor(&mut self, x: usize, y: usize)
        ensures
            final(self).buffer == old(self).buffer,
            final(self).width == old(self).width,
            final(self).height == old(self).height,
            (final(self).cursor_x, final(self).cursor_y) == if x < old(self).width && y < old(self).height {
                (x, y)
            } else {
                (old(self).cursor_x, old(self).cursor_y)
            },
            final(self).dirty == old(self).dirty,
            final(self).keyboard_locked == old(self).keyboard_locked,
    {
        if x < self.width && y < self.height {
            self.cursor_x = x;
            self.cursor_y = y;
        }
    }

    /// Move the cursor to (x, y) when that is on the screen.
    pub fn move_cursor(&mut self, x: usize, y: usize)
        ensures
            final(self).buffer == old(self).buffer,
            final(self).width == old(self).width,
            final(self).height == old(self).height,
            (final(self).cursor_x, final(self).cursor_y) == if x < old(self).width && y < old(self).height {
                (x, y)
            } else {
                (old(self).cursor_x, old(self).cursor_y)
            },
            final(self).dirty == old(self).dirty,
            final(self).keyboard_locked == old(self).keyboard_locked,
    {
        self.set_cursor(x, y);
    }

    /// Write a character at the cursor (when the cursor is on the screen)
    /// and advance it: to the next column, else the start of the next row,
    /// staying on the last row.
    pub fn write_char(&mut self, c: char)
        requires
            old(self).wf(),
        ensures
            final(self).wf(),
            final(self).width == old(self).width,
            final(self).height == old(self).height,
            final(self).keyboard_locked == old(self).keyboard_locked,
            old(self).cursor_x < old(self).width && old(self).cursor_y < old(self).height ==> {
                &&& final(self).buffer@ == old(self).buffer@.update(
                    old(self).cursor_y * old(self).width + old(self).cursor_x,
                    TerminalChar { character: c, attribute: CharAttribute::Normal },
                )
                &&& (final(self).cursor_x, final(self).cursor_y) == advance(old(self).cursor_x, old(self).cursor_y, old(self).width, old(self).height)
                &&& final(self).dirty
            },
            !(old(self).cursor_x < old(self).width && old(self).cursor_y < old(self).height) ==> *final(self) == *old(self),
    {
        if self.cursor_x < self.width && self.cursor_y < self.height {
            proof {
                lemma_index_in_grid(self.cursor_x as int, self.cursor_y as int, self.width as int, self.height as int);
            }
            let idx = self.cursor_y * self.width + self.cursor_x;
            self.buffer.set(idx, TerminalChar { character: c, attribute: CharAttribute::Normal });
            let (nx, ny) = next_position(self.cursor_x, self.cursor_y, self.width, self.height);
            self.cursor_x = nx;
            self.cursor_y = ny;
            self.dirty = true;
        }
    }

    /// Change the size. Every cell starts blank; when `preserve` is set the
    /// cells that both sizes share keep their contents. The cursor is
    /// pulled inside the new size.
    pub fn resize(&mut self, width: usize, height: usize, preserve: bool)
        requires
            old(self).wf(),
            width * height <= usize::MAX,
        ensures
            final(self).wf(),
            final(self).width == width,
            final(self).height == height,
            forall|x: int, y: int|
                0 <= x < width && 0 <= y < height ==> #[trigger] final(self).cell(x, y) == if preserve && x
                    < old(self).width && y < old(self).height {
                    old(self).cell(x, y)
                } else {
                    TerminalChar::spec_blank()
                },
            final(self).cursor_x == clamp_to(old(self).cursor_x, width),
            final(self).cursor_y == clamp_to(old(self).cursor_y, height),
            final(self).dirty,
            final(self).keyboard_locked == old(self).keyboard_locked,
    {
        let mut v: Vec<TerminalChar> = Vec::new();
        let mut y: usize = 0;
        while y < height
            invariant
                self.wf(),
                width * height <= usize::MAX,
                *self == *old(self),
                y <= height,
                v@.len() == y * width,
                forall|xx: int, yy: int|
                    0 <= xx < width && 0 <= yy < y ==> #[trigger] v@[yy * width + xx] == if preserve && xx
                        < old(self).width && yy < old(self).height {
                        old(self).cell(xx, yy)
                    } else {
                        TerminalChar::spec_blank()
                    },
            decreases height - y,
        {
            let mut x: usize = 0;
            while x < width
                invariant
                    self.wf(),
                    width * height <= usize::MAX,
                    *self == *old(self),
                    y < height,
                    x <= width,
                    v@.len() == y * width + x,
                    forall|xx: int, yy: int|
                        (0 <= xx < width && 0 <= yy < y) || (yy == y && 0 <= xx < x) ==> #[trigger] v@[yy * width + xx] == if preserve
                            && xx < old(self).width && yy < old(self).height {
                            old(self).cell(xx, yy)
                        } else {
                            TerminalChar::spec_blank()
                        },
                decreases width - x,
            {
                proof {
                    lemma_index_in_grid(x as int, y as int, width as int, height as int);
                }
                let cell = if preserve && x < self.width && y < self.height {
                    proof {
                        lemma_index_in_grid(x as int, y as int, self.width as int, self.height as int);
                    }
                    self.buffer[y * self.width + x]
                } else {
                    TerminalChar::blank()
                };
                let ghost before = v@;
                v.push(cell);
                proof {
                    assert forall|xx: int, yy: int|
                        (0 <= xx < width && 0 <= yy < y) || (yy == y && 0 <= xx < x + 1) implies #[trigger] v@[yy * width + xx] == if preserve
                            && xx < old(self).width && yy < old(self).height {
                            old(self).cell(xx, yy)
                        } else {
                            TerminalChar::spec_blank()
                        } by {
                        if yy == y && xx == x {
                        } else {
                            lemma_row_major_before(xx, yy, x as int, y as int, width as int);
                            assert(v@[yy * width + xx] == before[yy * width + xx]);
                        }
                    }
                }
                x = x + 1;
            }
            assert((y + 1) * width == y * width + width) by (nonlinear_arith);
            y = y + 1;
        }
        proof {
            assert(v@.len() == width * height) by (nonlinear_arith)
                requires
                    v@.len() == y * width,
                    y == height,
            ;
        }
        self.buffer = v;
        self.width = width;
        self.height = height;
        self.cursor_x = clamp_index(self.cursor_x, width);
        self.cursor_y = clamp_index(self.cursor_y, height);
        self.dirty = true;
    }

    /// Write text at the cursor: a line break moves to the start of the
    /// next row (staying on the last), a carriage return to the start of the
    /// row, every other character is written as by `write_char`.
    pub fn write_string(&mut self, text: &str)
        requires
            old(self).wf(),
        ensures
            final(self).wf(),
            final(self).width == old(self).width,
            final(self).height == old(self).height,
            final(self).keyboard_locked == old(self).keyboard_locked,
            old(self).dirty ==> final(self).dirty,
            (final(self).buffer@, final(self).cursor_x, final(self).cursor_y) == put_text(
                old(self).buffer@,
                old(self).cursor_x,
                old(self).cursor_y,
                old(self).width,
                old(self).height,
                text@,
            ),
    {
        let n = text.unicode_len();
        let mut i: usize = 0;
        while i < n
            invariant
                self.wf(),
                n == text@.len(),
                i <= n,
                self.width == old(self).width,
                self.height == old(self).height,
                self.keyboard_locked == old(self).keyboard_locked,
                old(self).dirty ==> self.dirty,
                (self.buffer@, self.cursor_x, self.cursor_y) == put_text(
                    old(self).buffer@,
                    old(self).cursor_x,
                    old(self).cursor_y,
                    old(self).width,
                    old(self).height,
                    text@.take(i as int),
                ),
            decreases n - i,
        {
            let c = text.get_char(i);
            proof {
                assert(text@.take(i + 1).drop_last() =~= text@.take(i as int));
                assert(text@.take(i + 1).last() == c);
            }
            if c == '\n' {
                self.cursor_x = 0;
                if self.cursor_y < self.height && self.height - self.cursor_y > 1 {
                    self.cursor_y = self.cursor_y + 1;
                }
            } else if c == '\r' {
                self.cursor_x = 0;
            } else {
                self.write_char(c);
            }
            i = i + 1;
        }
        assert(text@.take(n as int) =~= text@);
    }

    /// Blank the cells from (start_row, start_col) through
    /// (end_row, end_col) in reading order.
    pub fn erase_region(&mut self, start_row: usize, start_col: usize, end_row: usize, end_col: usize)
        requires
            old(self).wf(),
            start_row * old(self).width + start_col <= usize::MAX,
            end_row * old(self).width + end_col <= usize::MAX,
        ensures
            final(self).wf(),
            final(self).buffer@.len() == old(self).buffer@.len(),
            forall|i: int| 0 <= i < old(self).buffer@.len() ==> #[trigger] final(self).buffer@[i] == if start_row
                * old(self).width + start_col <= i <= end_row * old(self).width + end_col {
                TerminalChar::spec_blank()
            } else {
                old(self).buffer@[i]
            },
            final(self).width == old(self).width,
            final(self).height == old(self).height,
            final(self).cursor_x == old(self).cursor_x,
            final(self).cursor_y == old(self).cursor_y,
            final(self).dirty,
            final(self).keyboard_locked == old(self).keyboard_locked,
    {
        let first = start_row * self.width + start_col;
        let last = end_row * self.width + end_col;
        let mut i: usize = first;
        while i < self.buffer.len() && i <= last
            invariant
                self.buffer@.len() == old(self).buffer@.len(),
                self.width == old(self).width,
                self.height == old(self).height,
                self.cursor_x == old(self).cursor_x,
                self.cursor_y == old(self).cursor_y,
                self.keyboard_locked == old(self).keyboard_locked,
                first <= i,
                forall|j: int| 0 <= j < self.buffer@.len() ==> #[trigger] self.buffer@[j] == if first <= j < i && j <= last {
                    TerminalChar::spec_blank()
                } else {
                    old(self).buffer@[j]
                },
            decreases self.buffer@.len() - i,
        {
            self.buffer.set(i, TerminalChar::blank());
            i = i + 1;
        }
        self.dirty = true;
    }

    /// Shift rows `top` through `bottom` (bounded by the screen) by `lines`:
    /// down when positive, up when negative; rows that nothing moves into
    /// become blank.
    pub fn roll(&mut self, top: usize, bottom: usize, lines: i8)
        requires
            old(self).wf(),
        ensures
            final(self).wf(),
            final(self).width == old(self).width,
            final(self).height == old(self).height,
            forall|x: int, y: int|
                0 <= x < old(self).width && 0 <= y < old(self).height ==> #[trigger] final(self).cell(x, y)
                    == rolled_cell(old(self).buffer@, old(self).width as int, old(self).height as int, top as int, bottom as int, lines as int, x, y),
            final(self).cursor_x == old(self).cursor_x,
            final(self).cursor_y == old(self).cursor_y,
            final(self).keyboard_locked == old(self).keyboard_locked,
            final(self).dirty,
    {
        self.dirty = true;
        let old_buffer = self.buffer.clone();
        let w = self.width;
        let h = self.height;
        let mut y: usize = 0;
        while y < h
            invariant
                self.wf(),
                w == self.width,
                h == self.height,
                old_buffer@ == old(self).buffer@,
                old_buffer@.len() == w * h,
                self.width == old(self).width,
                self.height == old(self).height,
                self.cursor_x == old(self).cursor_x,
                self.cursor_y == old(self).cursor_y,
                self.keyboard_locked == old(self).keyboard_locked,
                self.dirty,
                y <= h,
                forall|xx: int, yy: int|
                    0 <= xx < w && 0 <= yy < h ==> #[trigger] self.cell(xx, yy) == if yy < y {
                        rolled_cell(old_buffer@, w as int, h as int, top as int, bottom as int, lines as int, xx, yy)
                    } else {
                        old_buffer@[yy * w + xx]
                    },
            decreases h - y,
        {
            let mut x: usize = 0;
            while x < w
                invariant
                    self.wf(),
                    w == self.width,
                    h == self.height,
                    old_buffer@ == old(self).buffer@,
                    old_buffer@.len() == w * h,
                    self.width == old(self).width,
                    self.height == old(self).height,
                    self.cursor_x == old(self).cursor_x,
                    self.cursor_y == old(self).cursor_y,
                    self.keyboard_locked == old(self).keyboard_locked,
                    self.dirty,
                    y < h,
                    x <= w,
                    forall|xx: int, yy: int|
                        0 <= xx < w && 0 <= yy < h ==> #[trigger] self.cell(xx, yy) == if yy < y || (yy == y && xx < x) {
                            rolled_cell(old_buffer@, w as int, h as int, top as int, bottom as int, lines as int, xx, yy)
                        } else {
                            old_buffer@[yy * w + xx]
                        },
                decreases w - x,
            {
                proof {
                    lemma_index_in_grid(x as int, y as int, w as int, h as int);
                }
                let cell = rolled_cell_exec(&old_buffer, w, h, top, bottom, lines, x, y);
                let ghost before = self.buffer@;
                let ghost before_self = *self;
                self.buffer.set(y * w + x, cell);
                proof {
                    assert forall|xx: int, yy: int| 0 <= xx < w && 0 <= yy < h implies #[trigger] self.cell(xx, yy) == if yy < y || (yy == y && xx < x + 1) {
                        rolled_cell(old_buffer@, w as int, h as int, top as int, bottom as int, lines as int, xx, yy)
                    } else {
                        old_buffer@[yy * w + xx]
                    } by {
                        lemma_index_in_grid(xx, yy, w as int, h as int);
                        if yy != y || xx != x {
                            lemma_index_distinct(xx, yy, x as int, y as int, w as int);
                            assert(self.buffer@[yy * w + xx] == before[yy * w + xx]);
                            assert(before_self.cell(xx, yy) == before[yy * w + xx]);
                        }
                    }
                }
                x = x + 1;
            }
            y = y + 1;
        }
    }

    /// Lock the keyboard.
    pub fn lock_keyboard(&mut self)
        ensures
            *final(self) == (TerminalScreen { keyboard_locked: true, ..*old(self) }),
    {
        self.keyboard_locked = true;
    }

    /// Unlock the keyboard.
    pub fn unlock_keyboard(&mut self)
        ensures
            *final(self) == (TerminalScreen { keyboard_locked: false, ..*old(self) }),
    {
        self.keyboard_locked = false;
    }

    /// The screen as text: every row followed by a line break.
    pub fn to_string(&self) -> (r: String)
        requires
            self.wf(),
        ensures
            r@ == screen_text(self.buffer@, self.width as int, self.height as nat),
    {
        let mut s = String::new();
        let mut y: usize = 0;
        while y < self.height
            invariant
                self.wf(),
                y <= self.height,
                s@ == screen_text(self.buffer@, self.width as int, y as nat),
            decreases self.height - y,
        {
            let ghost before = s@;
            let mut x: usize = 0;
            while x < self.width
                invariant
                    self.wf(),
                    y < self.height,
                    x <= self.width,
                    s@ == before + row_chars(self.buffer@, self.width as int, y as int).take(x as int),
                decreases self.width - x,
            {
                proof {
                    lemma_index_in_grid(x as int, y as int, self.width as int, self.height as int);
                }
                string_push(&mut s, self.buffer[y * self.width + x].character);
                x = x + 1;
                assert(s@ =~= before + row_chars(self.buffer@, self.width as int, y as int).take(x as int));
            }
            assert(row_chars(self.buffer@, self.width as int, y as int).take(x as int) =~= row_chars(self.buffer@, self.width as int, y as int));
            string_push(&mut s, '\n');
            y = y + 1;
        }
        s
    }
}

/// The position after (x, y): the next column, else the start of the next
/// row, staying on the last row.
pub open spec fn advance(x: usize, y: usize, width: usize, height: usize) -> (usize, usize) {
    if x + 1 < width {
        ((x + 1) as usize, y)
    } else if y + 1 < height {
        (0, (y + 1) as usize)
    } else {
        (0, y)
    }
}

/// The position after (x, y) on a `width` x `height` screen.
fn next_position(x: usize, y: usize, width: usize, height: usize) -> (r: (usize, usize))
    requires
        x < width,
        y < height,
    ensures
        r == advance(x, y, width, height),
{
    if x + 1 < width {
        (x + 1, y)
    } else if y + 1 < height {
        (0, y + 1)
    } else {
        (0, y)
    }
}

/// A value pulled inside `0..n` (0 when `n` is 0).
pub open spec fn clamp_to(v: usize, n: usize) -> usize {
    if v < n {
        v
    } else if n > 0 {
        (n - 1) as usize
    } else {
        0
    }
}

fn clamp_index(v: usize, n: usize) -> (r: usize)
    ensures
        r == clamp_to(v, n),
{
    if v < n {
        v
    } else if n > 0 {
        n - 1
    } else {
        0
    }
}

/// The screen contents and cursor after writing one character (see
/// `write_string`).
pub open spec fn put_char(cells: Seq<TerminalChar>, x: usize, y: usize, width: usize, height: usize, c: char) -> (Seq<TerminalChar>, usize, usize) {
    if c == '\n' {
        (cells, 0, if y + 1 < height { (y + 1) as usize } else { y })
    } else if c == '\r' {
        (cells, 0, y)
    } else if x < width && y < height {
        let (nx, ny) = advance(x, y, width, height);
        (cells.update(y * width + x, TerminalChar { character: c, attribute: CharAttribute::Normal }), nx, ny)
    } else {
        (cells, x, y)
    }
}

/// The screen contents and cursor after writing a text.
pub open spec fn put_text(cells: Seq<TerminalChar>, x: usize, y: usize, width: usize, height: usize, text: Seq<char>) -> (Seq<TerminalChar>, usize, usize)
    decreases text.len(),
{
    if text.len() == 0 {
        (cells, x, y)
    } else {
        let (c2, x2, y2) = put_text(cells, x, y, width, height, text.drop_last());
        put_char(c2, x2, y2, width, height, text.last())
    }
}

/// The cell at (x, y) after a roll of `lines` over rows `top` through
/// `bottom` (bounded by the screen).
pub open spec fn rolled_cell(cells: Seq<TerminalChar>, width: int, height: int, top: int, bottom: int, lines: int, x: int, y: int) -> TerminalChar {
    let bot = if bottom < height { bottom } else { height - 1 };
    if top <= y <= bot && lines != 0 {
        let src = y - lines;
        if top <= src <= bot {
            cells[src * width + x]
        } else {
            TerminalChar::spec_blank()
        }
    } else {
        cells[y * width + x]
    }
}

/// The cell a roll puts at (x, y).
fn rolled_cell_exec(cells: &Vec<TerminalChar>, width: usize, height: usize, top: usize, bottom: usize, lines: i8, x: usize, y: usize) -> (r: TerminalChar)
    requires
        width * height <= usize::MAX,
        cells@.len() == width * height,
        x < width,
        y < height,
    ensures
        r == rolled_cell(cells@, width as int, height as int, top as int, bottom as int, lines as int, x as int, y as int),
{
    proof {
        lemma_index_in_grid(x as int, y as int, width as int, height as int);
    }
    let bot = if bottom < height { bottom } else { height - 1 };
    if top <= y && y <= bot && lines != 0 {
        let src: Option<usize> = if lines > 0 {
            let d = lines as usize;
            if y >= d && y - d >= top {
                Some(y - d)
            } else {
                None
            }
        } else {
            let d = (-(lines as i16)) as usize;
            if bot >= d && y <= bot - d {
                Some(y + d)
            } else {
                None
            }
        };
        match src {
            Some(s) => {
                proof {
                    lemma_index_in_grid(x as int, s as int, width as int, height as int);
                }
                cells[s * width + x]
            },
            None => TerminalChar::blank(),
        }
    } else {
        cells[y * width + x]
    }
}

/// Positions before (x, y) in reading order have smaller indices.
pub proof fn lemma_row_major_before(xx: int, yy: int, x: int, y: int, width: int)
    requires
        0 <= xx < width,
        0 <= yy,
        0 <= x,
        yy < y || (yy == y && xx < x),
    ensures
        yy * width + xx < y * width + x,
{
    if yy < y {
        assert((yy + 1) * width <= y * width) by (nonlinear_arith)
            requires
                yy + 1 <= y,
                0 <= width,
        ;
        assert((yy + 1) * width == yy * width + width) by (nonlinear_arith);
    }
}

/// Distinct grid positions have distinct indices.
pub proof fn lemma_index_distinct(xx: int, yy: int, x: int, y: int, width: int)
    requires
        0 <= xx < width,
        0 <= x < width,
        0 <= yy,
        0 <= y,
        xx != x || yy != y,
    ensures
        yy * width + xx != y * width + x,
{
    if yy < y || (yy == y && xx < x) {
        lemma_row_major_before(xx, yy, x, y, width);
    } else {
        lemma_row_major_before(x, y, xx, yy, width);
    }
}

/// A position on the grid has its index inside the grid.
pub proof fn lemma_index_in_grid(x: int, y: int, width: int, height: int)
    requires
        0 <= x < width,
        0 <= y < height,
    ensures
        0 <= y * width + x < width * height,
{
    assert(y * width + x < width * height) by (nonlinear_arith)
        requires
            0 <= x < width,
            0 <= y < height,
    ;
    assert(0 <= y * width) by (nonlinear_arith)
        requires
            0 <= y,
            0 <= width,
    ;
}

/// `n` blank cells.
pub fn blank_cells(n: usize) -> (r: Vec<TerminalChar>)
    ensures
        r@ == Seq::new(n as nat, |i: int| TerminalChar::spec_blank()),
{
    let mut v: Vec<TerminalChar> = Vec::new();
    let mut i: usize = 0;
    while i < n
        invariant
            i <= n,
            v@ == Seq::new(i as nat, |k: int| TerminalChar::spec_blank()),
        decreases n - i,
    {
        v.push(TerminalChar::blank());
        i = i + 1;
        assert(v@ =~= Seq::new(i as nat, |k: int| TerminalChar::spec_blank()));
    }
    v
}

} // verus!
