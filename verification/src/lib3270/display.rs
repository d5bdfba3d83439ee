//! 3270 display buffer: screen sizes, cells, cursor and field tracking.

use vstd::prelude::*;
use crate::ebcdic::{ebcdic_to_ascii, spec_ebcdic_to_ascii};
use crate::lib3270::codes::ORDER_SBA;
use crate::lib3270::field::{FieldAttribute, FieldManager, extents_fit, lemma_sort_by_address, lemma_sort_extents, lemma_sort_members, sort_by_address};
use crate::text::{str_to_string, string_push};

pub mod addressing;

verus! {

/// Standard 3270 screen sizes.
#[derive(Debug, Clone, Copy, PartialEq, Eq, Structural)]
pub enum ScreenSize {
    /// 24 x 80
    Model2,
    /// 32 x 80
    Model3,
    /// 43 x 80
    Model4,
    /// 27 x 132
    Model5,
}

impl ScreenSize {
    pub open spec fn spec_rows(self) -> usize {
        match self {
            ScreenSize::Model2 => 24,
            ScreenSize::Model3 => 32,
            ScreenSize::Model4 => 43,
            ScreenSize::Model5 => 27,
        }
    }

    pub open spec fn spec_cols(self) -> usize {
        match self {
            ScreenSize::Model2 => 80,
            ScreenSize::Model3 => 80,
            ScreenSize::Model4 => 80,
            ScreenSize::Model5 => 132,
        }
    }

    pub open spec fn spec_buffer_size(self) -> usize {
        (self.spec_rows() * self.spec_cols()) as usize
    }

    /// Number of rows.
    pub fn rows(&self) -> (r: usize)
        ensures
            r == self.spec_rows(),
    {
        match self {
            ScreenSize::Model2 => 24,
            ScreenSize::Model3 => 32,
            ScreenSize::Model4 => 43,
            ScreenSize::Model5 => 27,
        }
    }

    /// Number of columns.
    pub fn cols(&self) -> (r: usize)
        ensures
            r == self.spec_cols(),
    {
        match self {
            ScreenSize::Model2 => 80,
            ScreenSize::Model3 => 80,
            ScreenSize::Model4 => 80,
            ScreenSize::Model5 => 132,
        }
    }

    /// Total number of cells (rows times columns).
    pub fn buffer_size(&self) -> (r: usize)
        ensures
            r == self.spec_buffer_size(),
            1920 <= r <= 3564,
    {
        self.rows() * self.cols()
    }

    /// The (row, column) of a buffer address.
    pub fn address_to_coords(&self, address: u16) -> (r: (usize, usize))
        ensures
            r == ((address as nat / self.spec_cols() as nat) as usize, (address as nat
                % self.spec_cols() as nat) as usize),
    {
        let addr = address as usize;
        let cols = self.cols();
        (addr / cols, addr % cols)
    }

    /// The buffer address of a (row, column), truncated to 16 bits.
    pub fn coords_to_address(&self, row: usize, col: usize) -> (r: u16)
        requires
            row * self.spec_cols() + col <= usize::MAX,
        ensures
            r == (row * self.spec_cols() + col) as u16,
    {
        ((row * self.cols()) + col) as u16
    }
}

/// Every screen size has between 1920 and 3564 cells.
pub proof fn lemma_buffer_size_bounds(size: ScreenSize)
    ensures
        1920 <= size.spec_buffer_size() <= 3564,
        size.spec_cols() > 0,
        size.spec_buffer_size() == size.spec_rows() * size.spec_cols(),
{
    match size {
        ScreenSize::Model2 => assert(24 * 80 == 1920),
        ScreenSize::Model3 => assert(32 * 80 == 2560),
        ScreenSize::Model4 => assert(43 * 80 == 3440),
        ScreenSize::Model5 => assert(27 * 132 == 3564),
    }
}

/// Converting an address to coordinates and back gives the address.
pub proof fn lemma_coords_roundtrip(size: ScreenSize, address: u16)
    ensures
        ({
            let cols = size.spec_cols() as int;
            let row = address as int / cols;
            let col = address as int % cols;
            row * cols + col == address as int && 0 <= col < cols
        }),
{
    let cols = size.spec_cols() as int;
    vstd::arithmetic::div_mod::lemma_fundamental_div_mod(address as int, cols);
}

/// The abstract state of a display: what every display operation reads and
/// changes.
pub ghost struct DisplayState {
    pub size: ScreenSize,
    pub cells: Seq<DisplayCell>,
    pub cursor: u16,
    pub fields: Seq<FieldAttribute>,
    pub locked: bool,
    pub alarm: bool,
}

impl DisplayState {
    pub open spec fn wf(self) -> bool {
        &&& self.cells.len() == self.size.spec_buffer_size()
        &&& (self.cursor as int) < self.cells.len()
    }

    /// Write a character at the cursor, mark the field there modified when it
    /// is unprotected, and advance the cursor with wrap-around.
    pub open spec fn write_char(self, ch: u8) -> Self {
        DisplayState {
            cells: self.cells.update(self.cursor as int, with_char(self.cells[self.cursor as int], ch)),
            fields: Display3270::mark_field_modified(self.fields, self.cursor),
            cursor: ((self.cursor + 1) % (self.cells.len() as int)) as u16,
            ..self
        }
    }

    /// Blank all cells, home the cursor, drop all fields.
    pub open spec fn clear(self) -> Self {
        DisplayState {
            cells: Seq::new(self.cells.len(), |i: int| DisplayCell::spec_blank()),
            cursor: 0,
            fields: Seq::empty(),
            ..self
        }
    }

    /// Null the character data of every unprotected field.
    pub open spec fn clear_unprotected(self) -> Self {
        DisplayState {
            cells: Seq::new(
                self.cells.len(),
                |j: int|
                    if Display3270::in_unprotected_field(self.fields, self.cells.len() as int, j) {
                        with_char(self.cells[j], 0)
                    } else {
                        self.cells[j]
                    },
            ),
            ..self
        }
    }

    /// Move the cursor when the address is inside the buffer.
    pub open spec fn set_cursor(self, address: u16) -> Self {
        if (address as int) < self.cells.len() {
            DisplayState { cursor: address, ..self }
        } else {
            self
        }
    }

    /// Record a field attribute at an address.
    pub open spec fn set_field_attribute(self, address: u16, attr: FieldAttribute) -> Self {
        DisplayState {
            cells: if (address as int) < self.cells.len() {
                self.cells.update(
                    address as int,
                    DisplayCell { char_data: attr.base_attr, is_field_attr: true, ..self.cells[address as int] },
                )
            } else {
                self.cells
            },
            fields: sort_by_address(self.fields.push(attr)),
            ..self
        }
    }

    /// Whether the cell `offset` positions after the cursor starts an
    /// unprotected field.
    pub open spec fn is_tab_stop(self, offset: int) -> bool {
        let n = self.cells.len() as int;
        let a = (self.cursor + offset) % n;
        let i = FieldManager::spec_find_index(self.fields, a as u16);
        &&& self.cells[a].is_field_attr
        &&& i >= 0
        &&& !self.fields[i].spec_is_protected()
    }

    /// The first tab stop at an offset of at least `k` (and below the buffer
    /// size), or -1.
    pub open spec fn tab_search(self, k: int) -> int
        decreases self.cells.len() - k,
    {
        if k < 1 || k >= self.cells.len() {
            -1
        } else if self.is_tab_stop(k) {
            k
        } else {
            self.tab_search(k + 1)
        }
    }

    /// Program Tab: move the cursor just past the next unprotected field
    /// attribute, if there is one.
    pub open spec fn tab(self) -> Self {
        let k = self.tab_search(1);
        let n = self.cells.len() as int;
        if k < 0 {
            self
        } else {
            DisplayState { cursor: (((self.cursor + k) % n + 1) % n) as u16, ..self }
        }
    }

    /// Repeat a character from the cursor through a target address.
    pub open spec fn repeat_to_address(self, ch: u8, target: u16) -> Self {
        if (target as int) < self.cells.len() {
            DisplayState {
                cells: Seq::new(
                    self.cells.len(),
                    |j: int|
                        if self.cursor <= j <= target {
                            with_char(self.cells[j], ch)
                        } else {
                            self.cells[j]
                        },
                ),
                cursor: ((target + 1) % (self.cells.len() as int)) as u16,
                ..self
            }
        } else {
            self
        }
    }

    /// Whether a position lies in a protected field: the field found for it
    /// (the last one at or before it) is protected.
    pub open spec fn in_protected_field(self, j: int) -> bool {
        let i = FieldManager::spec_find_index(self.fields, j as u16);
        i >= 0 && self.fields[i].spec_is_protected()
    }

    /// Whether erasing unprotected data nulls the cell at `j`: it is neither
    /// a field attribute nor in a protected field.
    pub open spec fn erasable(self, j: int) -> bool {
        !self.cells[j].is_field_attr && !self.in_protected_field(j)
    }

    /// Null the unprotected data cells (neither field attributes nor in a
    /// protected field) from the cursor through a target address.
    pub open spec fn erase_unprotected_to_address(self, target: u16) -> Self {
        if (target as int) < self.cells.len() {
            DisplayState {
                cells: Seq::new(
                    self.cells.len(),
                    |j: int|
                        if self.cursor <= j <= target && self.erasable(j) {
                            with_char(self.cells[j], 0)
                        } else {
                            self.cells[j]
                        },
                ),
                cursor: ((target + 1) % (self.cells.len() as int)) as u16,
                ..self
            }
        } else {
            self
        }
    }

    /// Whether every field's last position fits in a machine word.
    pub open spec fn extents_fit(self) -> bool {
        extents_fit(self.fields)
    }

    /// Clear the Modified Data Tag of every field.
    pub open spec fn reset_mdt(self) -> Self {
        DisplayState {
            fields: Seq::new(
                self.fields.len(),
                |i: int|
                    FieldAttribute {
                        base_attr: FieldAttribute::spec_with_mdt(self.fields[i].base_attr, false),
                        ..self.fields[i]
                    },
            ),
            ..self
        }
    }
}

/// The state of a freshly made display of the given size: blank cells,
/// cursor at 0, no fields, keyboard locked, alarm off.
pub open spec fn fresh_state(size: ScreenSize) -> DisplayState {
    DisplayState {
        size,
        cells: Seq::new(size.spec_buffer_size() as nat, |i: int| DisplayCell::spec_blank()),
        cursor: 0,
        fields: Seq::empty(),
        locked: true,
        alarm: false,
    }
}

/// One cell of the display buffer.
#[derive(Debug, Clone, Copy, PartialEq, Eq, Structural)]
pub struct DisplayCell {
    /// Character data (EBCDIC).
    pub char_data: u8,
    /// Whether this cell holds a field attribute.
    pub is_field_attr: bool,
    /// Extended attribute data.
    pub extended_attr: u8,
}

impl DisplayCell {
    pub open spec fn spec_blank() -> Self {
        DisplayCell { char_data: 0, is_field_attr: false, extended_attr: 0 }
    }
}

impl Default for DisplayCell {
    fn default() -> (r: Self)
        ensures
            r == DisplayCell::spec_blank(),
    {
        DisplayCell { char_data: 0, is_field_attr: false, extended_attr: 0 }
    }
}

/// The 3270 display buffer: cells, cursor, fields, keyboard lock and alarm.
#[derive(Debug)]
pub struct Display3270 {
    screen_size: ScreenSize,
    buffer: Vec<DisplayCell>,
    cursor_address: u16,
    field_manager: FieldManager,
    keyboard_locked: bool,
    alarm: bool,
}

/// How a cell is shown as text: field attribute positions as a full block,
/// printable characters as themselves, anything else as a dot.
pub open spec fn render_cell(cell: DisplayCell) -> char {
    if cell.is_field_attr {
        '\u{2588}'
    } else {
        let ch = spec_ebcdic_to_ascii(cell.char_data);
        if 0x20 <= (ch as u32) <= 0x7E {
            ch
        } else {
            '.'
        }
    }
}

/// A cell with new character data.
pub open spec fn with_char(cell: DisplayCell, ch: u8) -> DisplayCell {
    DisplayCell { char_data: ch, ..cell }
}

/// The display operations that change fields keep every extent fitting.
pub proof fn lemma_ops_keep_extents(st: DisplayState, ch: u8, address: u16, attr: FieldAttribute)
    requires
        st.extents_fit(),
    ensures
        st.write_char(ch).extents_fit(),
        st.reset_mdt().extents_fit(),
        st.clear().extents_fit(),
        attr.address + attr.length <= usize::MAX ==> st.set_field_attribute(address, attr).extents_fit(),
{
    FieldManager::lemma_find_index(st.fields, st.cursor);
    let w = st.write_char(ch).fields;
    assert forall|i: int| 0 <= i < w.len() implies w[i].address + #[trigger] w[i].length <= usize::MAX by {
        assert(w[i].address == st.fields[i].address && w[i].length == st.fields[i].length);
    }
    let r = st.reset_mdt().fields;
    assert forall|i: int| 0 <= i < r.len() implies r[i].address + #[trigger] r[i].length <= usize::MAX by {
        assert(r[i].address == st.fields[i].address && r[i].length == st.fields[i].length);
    }
    if attr.address + attr.length <= usize::MAX {
        let p = st.fields.push(attr);
        assert forall|i: int| 0 <= i < p.len() implies p[i].address + #[trigger] p[i].length <= usize::MAX by {
            if i < st.fields.len() {
                assert(p[i] == st.fields[i]);
            }
        }
        lemma_sort_extents(p);
    }
}

/// Whether every field's text range, from the position after its attribute
/// through its length, stays within 16-bit buffer addresses.
pub open spec fn ranges_fit(fields: Seq<FieldAttribute>) -> bool {
    forall|i: int|
        0 <= i < fields.len() ==> (#[trigger] fields[i]).address + 1 + (fields[i].length as u16) <= u16::MAX
}

/// The display operations that touch fields keep their text ranges within
/// 16-bit addresses (a new field's range must fit too); clearing leaves no
/// field at all.
pub proof fn lemma_ops_keep_ranges(st: DisplayState, ch: u8, address: u16, attr: FieldAttribute)
    ensures
        ranges_fit(st.fields) ==> ranges_fit(st.write_char(ch).fields),
        ranges_fit(st.fields) ==> ranges_fit(st.reset_mdt().fields),
        ranges_fit(st.clear().fields),
        ranges_fit(st.fields) && attr.address + 1 + (attr.length as u16) <= u16::MAX ==> ranges_fit(st.set_field_attribute(address, attr).fields),
{
    if ranges_fit(st.fields) {
        FieldManager::lemma_find_index(st.fields, st.cursor);
        let w = st.write_char(ch).fields;
        assert forall|i: int| 0 <= i < w.len() implies (#[trigger] w[i]).address + 1 + (w[i].length as u16) <= u16::MAX by {
            assert(w[i].address == st.fields[i].address && w[i].length == st.fields[i].length);
        }
        let r = st.reset_mdt().fields;
        assert forall|i: int| 0 <= i < r.len() implies (#[trigger] r[i]).address + 1 + (r[i].length as u16) <= u16::MAX by {
            assert(r[i].address == st.fields[i].address && r[i].length == st.fields[i].length);
        }
        if attr.address + 1 + (attr.length as u16) <= u16::MAX {
            let p = st.fields.push(attr);
            let q = sort_by_address(p);
            assert forall|i: int| 0 <= i < q.len() implies (#[trigger] q[i]).address + 1 + (q[i].length as u16) <= u16::MAX by {
                lemma_sort_by_address(p);
                assert(q.contains(q[i]));
                lemma_sort_members(p, q[i]);
                let j = choose|j: int| 0 <= j < p.len() && p[j] == q[i];
                if j < st.fields.len() {
                    assert(p[j] == st.fields[j]);
                }
            }
        }
    }
}

impl Display3270 {
    pub closed spec fn cells(&self) -> Seq<DisplayCell> {
        self.buffer@
    }

    pub closed spec fn size(&self) -> ScreenSize {
        self.screen_size
    }

    pub closed spec fn cursor(&self) -> u16 {
        self.cursor_address
    }

    pub closed spec fn fields(&self) -> Seq<FieldAttribute> {
        self.field_manager@
    }

    pub closed spec fn keyboard_is_locked(&self) -> bool {
        self.keyboard_locked
    }

    pub closed spec fn alarm_is_set(&self) -> bool {
        self.alarm
    }

    /// The abstract state of the display.
    pub open spec fn state(&self) -> DisplayState {
        DisplayState {
            size: self.size(),
            cells: self.cells(),
            cursor: self.cursor(),
            fields: self.fields(),
            locked: self.keyboard_is_locked(),
            alarm: self.alarm_is_set(),
        }
    }

    /// The buffer holds exactly one cell per screen position and the cursor
    /// lies inside it.
    pub open spec fn wf(&self) -> bool {
        &&& self.cells().len() == self.size().spec_buffer_size()
        &&& (self.cursor() as int) < self.cells().len()
    }

    /// Whether `other` differs from `self` at most in its cells and cursor.
    pub open spec fn same_except_cells_cursor(&self, other: &Self) -> bool {
        &&& other.size() == self.size()
        &&& other.fields() == self.fields()
        &&& other.keyboard_is_locked() == self.keyboard_is_locked()
        &&& other.alarm_is_set() == self.alarm_is_set()
    }

    /// Create a Model 2 (24 x 80) display.
    pub fn new() -> (r: Self)
        ensures
            r.wf(),
            r.size() == ScreenSize::Model2,
            r.cells() == Seq::new(1920, |i: int| DisplayCell::spec_blank()),
            r.cursor() == 0,
            r.fields() == Seq::<FieldAttribute>::empty(),
            r.keyboard_is_locked(),
            !r.alarm_is_set(),
            r.state() == fresh_state(ScreenSize::Model2),
    {
        Self::with_size(ScreenSize::Model2)
    }

    /// Create a display of the given size: blank cells, cursor at 0, no
    /// fields, keyboard locked, alarm off.
    pub fn with_size(size: ScreenSize) -> (r: Self)
        ensures
            r.wf(),
            r.size() == size,
            r.cells() == Seq::new(size.spec_buffer_size() as nat, |i: int| DisplayCell::spec_blank()),
            r.cursor() == 0,
            r.fields() == Seq::<FieldAttribute>::empty(),
            r.keyboard_is_locked(),
            !r.alarm_is_set(),
            r.state() == fresh_state(size),
    {
        let buffer_size = size.buffer_size();
        let mut buffer: Vec<DisplayCell> = Vec::new();
        let mut i: usize = 0;
        while i < buffer_size
            invariant
                i <= buffer_size,
                buffer@ == Seq::new(i as nat, |k: int| DisplayCell::spec_blank()),
            decreases buffer_size - i,
        {
            buffer.push(DisplayCell::default());
            i = i + 1;
            assert(buffer@ =~= Seq::new(i as nat, |k: int| DisplayCell::spec_blank()));
        }
        Display3270 {
            screen_size: size,
            buffer,
            cursor_address: 0,
            field_manager: FieldManager::new(),
            keyboard_locked: true,
            alarm: false,
        }
    }

    /// The screen size.
    pub fn screen_size(&self) -> (r: ScreenSize)
        ensures
            r == self.size(),
    {
        self.screen_size
    }

    /// Number of rows.
    pub fn rows(&self) -> (r: usize)
        ensures
            r == self.size().spec_rows(),
    {
        self.screen_size.rows()
    }

    /// Number of columns.
    pub fn cols(&self) -> (r: usize)
        ensures
            r == self.size().spec_cols(),
    {
        self.screen_size.cols()
    }

    /// Number of cells.
    pub fn buffer_size(&self) -> (r: usize)
        ensures
            r == self.size().spec_buffer_size(),
    {
        self.screen_size.buffer_size()
    }

    /// Blank every cell, home the cursor and forget all fields.
    pub fn clear(&mut self)
        requires
            old(self).wf(),
        ensures
            final(self).state() == old(self).state().clear(),
            final(self).wf(),
            final(self).cells() == Seq::new(old(self).cells().len(), |i: int| DisplayCell::spec_blank()),
            final(self).cursor() == 0,
            final(self).fields() == Seq::<FieldAttribute>::empty(),
            final(self).size() == old(self).size(),
            final(self).keyboard_is_locked() == old(self).keyboard_is_locked(),
            final(self).alarm_is_set() == old(self).alarm_is_set(),
    {
        let n = self.buffer.len();
        let mut i: usize = 0;
        while i < n
            invariant
                n == self.buffer@.len(),
                i <= n,
                self.screen_size == old(self).screen_size,
                self.keyboard_locked == old(self).keyboard_locked,
                self.alarm == old(self).alarm,
                self.field_manager == old(self).field_manager,
                self.cursor_address == old(self).cursor_address,
                forall|k: int| 0 <= k < i ==> #[trigger] self.buffer@[k] == DisplayCell::spec_blank(),
            decreases n - i,
        {
            self.buffer.set(i, DisplayCell::default());
            i = i + 1;
        }
        assert(self.buffer@ =~= Seq::new(n as nat, |i: int| DisplayCell::spec_blank()));
        self.cursor_address = 0;
        self.field_manager.clear();
    }

    /// Whether cell `j` lies inside some unprotected field, counting each
    /// field's positions from its address and wrapping at the buffer end.
    pub open spec fn in_unprotected_field(fields: Seq<FieldAttribute>, len: int, j: int) -> bool {
        exists|i: int, off: int|
            0 <= i < fields.len() && !fields[i].spec_is_protected() && 0 <= off
                < fields[i].length && #[trigger] ((fields[i].address + off) % len) == j
                && #[trigger] fields[i].length == fields[i].length
    }

    /// Null out the character data of every unprotected field.
    #[verifier::loop_isolation(false)]
    pub fn clear_unprotected(&mut self)
        requires
            old(self).wf(),
            forall|i: int|
                0 <= i < old(self).fields().len() ==> old(self).fields()[i].address
                    + #[trigger] old(self).fields()[i].length <= usize::MAX,
        ensures
            final(self).state() == old(self).state().clear_unprotected(),
            final(self).wf(),
            old(self).same_except_cells_cursor(final(self)),
            final(self).cursor() == old(self).cursor(),
            final(self).cells().len() == old(self).cells().len(),
            forall|j: int|
                0 <= j < old(self).cells().len() ==> #[trigger] final(self).cells()[j] == if Self::in_unprotected_field(
                    old(self).fields(),
                    old(self).cells().len() as int,
                    j,
                ) {
                    with_char(old(self).cells()[j], 0)
                } else {
                    old(self).cells()[j]
                },
    {
        let ghost old_cells = self.buffer@;
        let ghost fs = self.field_manager@;
        let len = self.buffer.len();
        let fields = self.field_manager.fields();
        let nf = fields.len();
        let mut i: usize = 0;
        while i < nf
            invariant
                0 <= i <= nf,
                nf == fs.len(),
                fields@ == fs,
                len == old_cells.len(),
                len > 0,
                self.buffer@.len() == len,
                self.screen_size == old(self).screen_size,
                self.keyboard_locked == old(self).keyboard_locked,
                self.alarm == old(self).alarm,
                self.field_manager == old(self).field_manager,
                self.cursor_address == old(self).cursor_address,
                forall|j: int|
                    0 <= j < len ==> #[trigger] self.buffer@[j] == if (exists|ii: int, off: int|
                        0 <= ii < i && !fs[ii].spec_is_protected() && 0 <= off < fs[ii].length
                            && #[trigger] ((fs[ii].address + off) % (len as int)) == j
                            && #[trigger] fs[ii].length == fs[ii].length) {
                        with_char(old_cells[j], 0)
                    } else {
                        old_cells[j]
                    },
            decreases nf - i,
        {
            let field = &fields[i];
            if !field.is_protected() {
                assert(old(self).fields()[i as int].length == fs[i as int].length);
                let start_addr = field.address as usize;
                let length = field.length;
                let mut offset: usize = 0;
                while offset < length
                    invariant
                        0 <= i < nf,
                        nf == fs.len(),
                        fields@ == fs,
                        *field == fs[i as int],
                        !fs[i as int].spec_is_protected(),
                        start_addr == fs[i as int].address,
                        length == fs[i as int].length,
                        start_addr + length <= usize::MAX,
                        offset <= length,
                        len == old_cells.len(),
                        len > 0,
                        self.buffer@.len() == len,
                        self.screen_size == old(self).screen_size,
                        self.keyboard_locked == old(self).keyboard_locked,
                        self.alarm == old(self).alarm,
                        self.field_manager == old(self).field_manager,
                        self.cursor_address == old(self).cursor_address,
                        forall|j: int|
                            0 <= j < len ==> #[trigger] self.buffer@[j] == if (exists|ii: int, off: int|
                                ((0 <= ii < i && 0 <= off < fs[ii].length) || (ii == i && 0 <= off
                                    < offset)) && !fs[ii].spec_is_protected() && #[trigger] ((
                                fs[ii].address + off) % (len as int)) == j
                                    && #[trigger] fs[ii].length == fs[ii].length) {
                                with_char(old_cells[j], 0)
                            } else {
                                old_cells[j]
                            },
                    decreases length - offset,
                {
                    let addr = (start_addr + offset) % len;
                    let mut cell = self.buffer[addr];
                    cell.char_data = 0x00;
                    self.buffer.set(addr, cell);
                    proof {
                        assert forall|j: int| 0 <= j < len implies #[trigger] self.buffer@[j]
                            == if (exists|ii: int, off: int|
                            ((0 <= ii < i && 0 <= off < fs[ii].length) || (ii == i && 0 <= off
                                < offset + 1)) && !fs[ii].spec_is_protected() && #[trigger] ((
                            fs[ii].address + off) % (len as int)) == j
                                && #[trigger] fs[ii].length == fs[ii].length) {
                            with_char(old_cells[j], 0)
                        } else {
                            old_cells[j]
                        } by {
                            if j == addr {
                                assert(((fs[i as int].address + offset) % (len as int)) == j);
                                assert(fs[i as int].length == fs[i as int].length);
                            }
                        }
                    }
                    offset = offset + 1;
                }
            }
            proof {
                assert forall|j: int| 0 <= j < len implies #[trigger] self.buffer@[j] == if (exists|
                    ii: int,
                    off: int,
                |
                    0 <= ii < i + 1 && !fs[ii].spec_is_protected() && 0 <= off < fs[ii].length
                        && #[trigger] ((fs[ii].address + off) % (len as int)) == j
                        && #[trigger] fs[ii].length == fs[ii].length) {
                    with_char(old_cells[j], 0)
                } else {
                    old_cells[j]
                } by {}
            }
            i = i + 1;
        }
        assert(self.buffer@ =~= old(self).state().clear_unprotected().cells);
    }

    /// Move the cursor to a buffer address; addresses outside the buffer are
    /// ignored.
    pub fn set_cursor(&mut self, address: u16)
        requires
            old(self).wf(),
        ensures
            final(self).state() == old(self).state().set_cursor(address),
            final(self).wf(),
            old(self).same_except_cells_cursor(final(self)),
            final(self).cells() == old(self).cells(),
            final(self).cursor() == if (address as int) < old(self).cells().len() {
                address
            } else {
                old(self).cursor()
            },
    {
        if (address as usize) < self.buffer.len() {
            self.cursor_address = address;
        }
    }

    /// The cursor's buffer address.
    pub fn cursor_address(&self) -> (r: u16)
        ensures
            r == self.cursor(),
    {
        self.cursor_address
    }

    /// The cursor as (row, column).
    pub fn cursor_position(&self) -> (r: (usize, usize))
        ensures
            r == ((self.cursor() as nat / self.size().spec_cols() as nat) as usize, (self.cursor() as nat
                % self.size().spec_cols() as nat) as usize),
    {
        self.screen_size.address_to_coords(self.cursor_address)
    }

    /// The fields after marking the field at `address` modified, when that
    /// field exists and is unprotected.
    pub open spec fn mark_field_modified(fields: Seq<FieldAttribute>, address: u16) -> Seq<
        FieldAttribute,
    > {
        let i = FieldManager::spec_find_index(fields, address);
        if i >= 0 && !fields[i].spec_is_protected() {
            fields.update(
                i,
                FieldAttribute {
                    base_attr: FieldAttribute::spec_with_mdt(fields[i].base_attr, true),
                    ..fields[i]
                },
            )
        } else {
            fields
        }
    }

    /// Set the modified tag of the field at `address` when it is unprotected.
    fn mark_modified_at(&mut self, address: u16)
        ensures
            final(self).fields() == Self::mark_field_modified(old(self).fields(), address),
            final(self).buffer == old(self).buffer,
            final(self).cursor_address == old(self).cursor_address,
            final(self).screen_size == old(self).screen_size,
            final(self).keyboard_locked == old(self).keyboard_locked,
            final(self).alarm == old(self).alarm,
    {
        proof {
            FieldManager::lemma_find_index(self.field_manager@, address);
        }
        if let Some(field) = self.field_manager.find_field_at_mut(address) {
            if !field.is_protected() {
                field.set_modified(true);
            }
        }
    }

    /// Write a character at the cursor, mark the enclosing unprotected field
    /// modified, and advance the cursor (wrapping at the buffer end).
    pub fn write_char(&mut self, ch: u8)
        requires
            old(self).wf(),
        ensures
            final(self).state() == old(self).state().write_char(ch),
            final(self).wf(),
            final(self).cells() == old(self).cells().update(
                old(self).cursor() as int,
                with_char(old(self).cells()[old(self).cursor() as int], ch),
            ),
            final(self).fields() == Self::mark_field_modified(old(self).fields(), old(self).cursor()),
            final(self).cursor() == (old(self).cursor() + 1) % (old(self).cells().len() as int),
            final(self).size() == old(self).size(),
            final(self).keyboard_is_locked() == old(self).keyboard_is_locked(),
            final(self).alarm_is_set() == old(self).alarm_is_set(),
    {
        proof {
            lemma_buffer_size_bounds(self.screen_size);
        }
        let addr = self.cursor_address as usize;
        if addr < self.buffer.len() {
            let mut cell = self.buffer[addr];
            cell.char_data = ch;
            self.buffer.set(addr, cell);
            let a = self.cursor_address;
            self.mark_modified_at(a);
            self.cursor_address = ((addr + 1) % self.buffer.len()) as u16;
        }
    }

    /// Write a character at a buffer address (ignored outside the buffer) and
    /// mark the enclosing unprotected field modified; the cursor stays.
    pub fn write_char_at(&mut self, address: u16, ch: u8)
        requires
            old(self).wf(),
        ensures
            final(self).wf(),
            (address as int) < old(self).cells().len() ==> {
                &&& final(self).cells() == old(self).cells().update(
                    address as int,
                    with_char(old(self).cells()[address as int], ch),
                )
                &&& final(self).fields() == Self::mark_field_modified(old(self).fields(), address)
            },
            (address as int) >= old(self).cells().len() ==> {
                &&& final(self).cells() == old(self).cells()
                &&& final(self).fields() == old(self).fields()
            },
            final(self).cursor() == old(self).cursor(),
            final(self).size() == old(self).size(),
            final(self).keyboard_is_locked() == old(self).keyboard_is_locked(),
            final(self).alarm_is_set() == old(self).alarm_is_set(),
    {
        let addr = address as usize;
        if addr < self.buffer.len() {
            let mut cell = self.buffer[addr];
            cell.char_data = ch;
            self.buffer.set(addr, cell);
            self.mark_modified_at(address);
        }
    }

    /// The character data at a buffer address, if the address is inside the
    /// buffer.
    pub fn read_char_at(&self, address: u16) -> (r: Option<u8>)
        ensures
            r == if (address as int) < self.cells().len() {
                Some(self.cells()[address as int].char_data)
            } else {
                None::<u8>
            },
    {
        let addr = address as usize;
        if addr < self.buffer.len() {
            Some(self.buffer[addr].char_data)
        } else {
            None
        }
    }

    /// Record a field: when the address is inside the buffer its cell becomes
    /// a field attribute position holding the base attribute; the field is
    /// added to the field list in any case.
    pub fn set_field_attribute(&mut self, address: u16, attr: FieldAttribute)
        requires
            old(self).wf(),
        ensures
            final(self).state() == old(self).state().set_field_attribute(address, attr),
            final(self).wf(),
            final(self).cells() == if (address as int) < old(self).cells().len() {
                old(self).cells().update(
                    address as int,
                    DisplayCell {
                        char_data: attr.base_attr,
                        is_field_attr: true,
                        ..old(self).cells()[address as int]
                    },
                )
            } else {
                old(self).cells()
            },
            final(self).fields() == sort_by_address(old(self).fields().push(attr)),
            final(self).cursor() == old(self).cursor(),
            final(self).size() == old(self).size(),
            final(self).keyboard_is_locked() == old(self).keyboard_is_locked(),
            final(self).alarm_is_set() == old(self).alarm_is_set(),
    {
        let addr = address as usize;
        if addr < self.buffer.len() {
            let mut cell = self.buffer[addr];
            cell.is_field_attr = true;
            cell.char_data = attr.base_attr;
            self.buffer.set(addr, cell);
        }
        self.field_manager.add_field(attr);
    }

    /// The field manager.
    pub fn field_manager(&self) -> (r: &FieldManager)
        ensures
            r@ == self.fields(),
    {
        &self.field_manager
    }

    /// Mutable access to the field manager; everything else stays as it is.
    pub fn field_manager_mut(&mut self) -> (r: &mut FieldManager)
        ensures
            r@ == old(self).fields(),
            final(self).fields() == final(r)@,
            final(self).cells() == old(self).cells(),
            final(self).cursor() == old(self).cursor(),
            final(self).size() == old(self).size(),
            final(self).keyboard_is_locked() == old(self).keyboard_is_locked(),
            final(self).alarm_is_set() == old(self).alarm_is_set(),
    {
        &mut self.field_manager
    }

    /// Whether the cell at `offset` after the cursor starts an unprotected
    /// field.
    pub open spec fn is_tab_stop(&self, offset: int) -> bool {
        self.state().is_tab_stop(offset)
    }

    /// The position just after the next unprotected field attribute after the
    /// cursor, searching forward with wrap-around (the cursor cell itself is
    /// not considered).
    pub fn find_next_unprotected_field(&self) -> (r: Option<u16>)
        requires
            self.wf(),
        ensures
            r == if self.state().tab_search(1) < 0 { None::<u16> } else { Some((((self.cursor() + self.state().tab_search(1)) % (self.cells().len() as int) + 1) % (self.cells().len() as int)) as u16) },
            r is None <==> forall|k: int| 1 <= k < self.cells().len() ==> !#[trigger] self.is_tab_stop(k),
            r matches Some(a) ==> exists|k: int|
                1 <= k < self.cells().len() && #[trigger] self.is_tab_stop(k) && (forall|m: int|
                    1 <= m < k ==> !#[trigger] self.is_tab_stop(m)) && a == ((self.cursor() + k)
                    % (self.cells().len() as int) + 1) % (self.cells().len() as int),
    {
        proof {
            lemma_buffer_size_bounds(self.screen_size);
        }
        let current_addr = self.cursor_address;
        let buffer_size = self.buffer_size() as u16;
        let mut offset: u16 = 1;
        while offset < buffer_size
            invariant
                self.wf(),
                current_addr == self.cursor(),
                buffer_size as int == self.cells().len(),
                buffer_size <= 3564,
                1 <= offset <= buffer_size,
                forall|m: int| 1 <= m < offset ==> !#[trigger] self.is_tab_stop(m),
                self.state().tab_search(1) == self.state().tab_search(offset as int),
            decreases buffer_size - offset,
        {
            let test_addr = (current_addr + offset) % buffer_size;
            if self.buffer[test_addr as usize].is_field_attr {
                proof {
                    FieldManager::lemma_find_index(self.field_manager@, test_addr);
                }
                if let Some(field) = self.field_manager.find_field_at(test_addr) {
                    if !field.is_protected() {
                        assert(self.is_tab_stop(offset as int));
                        return Some((test_addr + 1) % buffer_size);
                    }
                }
            }
            proof {
                FieldManager::lemma_find_index(self.field_manager@, test_addr);
            }
            offset = offset + 1;
        }
        None
    }

    /// Move the cursor to the next unprotected field (Program Tab); returns
    /// whether one was found.
    pub fn tab_to_next_field(&mut self) -> (r: bool)
        requires
            old(self).wf(),
        ensures
            r == (old(self).state().tab_search(1) >= 0),
            final(self).state() == old(self).state().tab(),
            final(self).wf(),
            r == !(forall|k: int| 1 <= k < old(self).cells().len() ==> !#[trigger] old(self).is_tab_stop(k)),
            r ==> exists|k: int|
                1 <= k < old(self).cells().len() && #[trigger] old(self).is_tab_stop(k) && (forall|m: int|
                    1 <= m < k ==> !#[trigger] old(self).is_tab_stop(m)) && final(self).cursor() == ((old(self).cursor() + k)
                    % (old(self).cells().len() as int) + 1) % (old(self).cells().len() as int),
            !r ==> final(self).cursor() == old(self).cursor(),
            final(self).cells() == old(self).cells(),
            old(self).same_except_cells_cursor(final(self)),
    {
        if let Some(next_addr) = self.find_next_unprotected_field() {
            self.cursor_address = next_addr;
            true
        } else {
            false
        }
    }

    /// Fill from the cursor through `target_address` with a character and put
    /// the cursor after the target. Nothing happens unless both addresses are
    /// inside the buffer; when the target precedes the cursor no cell is
    /// written but the cursor still moves.
    pub fn repeat_to_address(&mut self, ch: u8, target_address: u16)
        requires
            old(self).wf(),
        ensures
            final(self).state() == old(self).state().repeat_to_address(ch, target_address),
            final(self).wf(),
            old(self).same_except_cells_cursor(final(self)),
            (target_address as int) < old(self).cells().len() ==> {
                &&& final(self).cells() == Seq::new(
                    old(self).cells().len(),
                    |j: int|
                        if old(self).cursor() <= j <= target_address {
                            with_char(old(self).cells()[j], ch)
                        } else {
                            old(self).cells()[j]
                        },
                )
                &&& final(self).cursor() == (target_address + 1) % (old(self).cells().len() as int)
            },
            (target_address as int) >= old(self).cells().len() ==> {
                &&& final(self).cells() == old(self).cells()
                &&& final(self).cursor() == old(self).cursor()
            },
    {
        proof {
            lemma_buffer_size_bounds(self.screen_size);
        }
        let ghost old_cells = self.buffer@;
        let start = self.cursor_address as usize;
        let end = target_address as usize;
        let len = self.buffer.len();
        if start < len && end < len {
            let mut addr = start;
            while addr <= end
                invariant
                    start <= addr,
                    addr <= end + 1 || addr == start,
                    end < len,
                    len == old_cells.len(),
                    self.buffer@.len() == len,
                    self.screen_size == old(self).screen_size,
                    self.keyboard_locked == old(self).keyboard_locked,
                    self.alarm == old(self).alarm,
                    self.field_manager == old(self).field_manager,
                    self.cursor_address == old(self).cursor_address,
                    forall|j: int|
                        0 <= j < len ==> #[trigger] self.buffer@[j] == if start <= j < addr {
                            with_char(old_cells[j], ch)
                        } else {
                            old_cells[j]
                        },
                decreases end + 1 - addr,
            {
                let mut cell = self.buffer[addr];
                cell.char_data = ch;
                self.buffer.set(addr, cell);
                addr = addr + 1;
            }
            self.cursor_address = ((end + 1) % len) as u16;
            proof {
                assert(self.buffer@ =~= Seq::new(
                    old_cells.len(),
                    |j: int|
                        if old(self).cursor() <= j <= target_address {
                            with_char(old_cells[j], ch)
                        } else {
                            old_cells[j]
                        },
                ));
            }
        }
    }

    /// Null the character data from the cursor through `target_address`,
    /// skipping field attribute positions and the positions of protected
    /// fields, and put the cursor after the target. Nothing happens unless
    /// both addresses are inside the buffer.
    pub fn erase_unprotected_to_address(&mut self, target_address: u16)
        requires
            old(self).wf(),
        ensures
            final(self).state() == old(self).state().erase_unprotected_to_address(target_address),
            final(self).wf(),
            old(self).same_except_cells_cursor(final(self)),
            (target_address as int) < old(self).cells().len() ==> {
                &&& final(self).cells() == Seq::new(
                    old(self).cells().len(),
                    |j: int|
                        if old(self).cursor() <= j <= target_address && old(self).state().erasable(j) {
                            with_char(old(self).cells()[j], 0)
                        } else {
                            old(self).cells()[j]
                        },
                )
                &&& final(self).cursor() == (target_address + 1) % (old(self).cells().len() as int)
            },
            (target_address as int) >= old(self).cells().len() ==> {
                &&& final(self).cells() == old(self).cells()
                &&& final(self).cursor() == old(self).cursor()
            },
    {
        proof {
            lemma_buffer_size_bounds(self.screen_size);
        }
        let ghost old_cells = self.buffer@;
        let ghost st = old(self).state();
        let start = self.cursor_address as usize;
        let end = target_address as usize;
        let len = self.buffer.len();
        if start < len && end < len {
            let mut addr = start;
            while addr <= end
                invariant
                    start <= addr,
                    addr <= end + 1 || addr == start,
                    end < len,
                    len == old_cells.len(),
                    len <= 3564,
                    st == old(self).state(),
                    st.cells == old_cells,
                    self.buffer@.len() == len,
                    self.screen_size == old(self).screen_size,
                    self.keyboard_locked == old(self).keyboard_locked,
                    self.alarm == old(self).alarm,
                    self.field_manager == old(self).field_manager,
                    self.field_manager@ == st.fields,
                    self.cursor_address == old(self).cursor_address,
                    forall|j: int|
                        0 <= j < len ==> #[trigger] self.buffer@[j] == if start <= j < addr && st.erasable(j) {
                            with_char(old_cells[j], 0)
                        } else {
                            old_cells[j]
                        },
                decreases end + 1 - addr,
            {
                if !self.buffer[addr].is_field_attr {
                    proof {
                        FieldManager::lemma_find_index(self.field_manager@, addr as u16);
                    }
                    let protected = match self.field_manager.find_field_at(addr as u16) {
                        Some(field) => field.is_protected(),
                        None => false,
                    };
                    proof {
                        let k = FieldManager::spec_find_index(st.fields, addr as u16);
                        if k >= 0 {
                            assert(protected == st.fields[k].spec_is_protected());
                        }
                        assert(protected == st.in_protected_field(addr as int));
                    }
                    if !protected {
                        let mut cell = self.buffer[addr];
                        cell.char_data = 0x00;
                        self.buffer.set(addr, cell);
                    }
                }
                addr = addr + 1;
            }
            self.cursor_address = ((end + 1) % len) as u16;
            proof {
                assert(self.buffer@ =~= Seq::new(
                    old_cells.len(),
                    |j: int|
                        if old(self).cursor() <= j <= target_address && st.erasable(j) {
                            with_char(old_cells[j], 0)
                        } else {
                            old_cells[j]
                        },
                ));
            }
        }
    }

    /// Lock the keyboard.
    pub fn lock_keyboard(&mut self)
        requires
            old(self).wf(),
        ensures
            final(self).state() == (DisplayState { locked: true, ..old(self).state() }),
            final(self).wf(),
            final(self).keyboard_is_locked(),
            final(self).cells() == old(self).cells(),
            final(self).cursor() == old(self).cursor(),
            final(self).fields() == old(self).fields(),
            final(self).size() == old(self).size(),
            final(self).alarm_is_set() == old(self).alarm_is_set(),
    {
        self.keyboard_locked = true;
    }

    /// Unlock the keyboard.
    pub fn unlock_keyboard(&mut self)
        requires
            old(self).wf(),
        ensures
            final(self).state() == (DisplayState { locked: false, ..old(self).state() }),
            final(self).wf(),
            !final(self).keyboard_is_locked(),
            final(self).cells() == old(self).cells(),
            final(self).cursor() == old(self).cursor(),
            final(self).fields() == old(self).fields(),
            final(self).size() == old(self).size(),
            final(self).alarm_is_set() == old(self).alarm_is_set(),
    {
        self.keyboard_locked = false;
    }

    /// Whether the keyboard is locked.
    pub fn is_keyboard_locked(&self) -> (r: bool)
        ensures
            r == self.keyboard_is_locked(),
    {
        self.keyboard_locked
    }

    /// Set or clear the alarm.
    pub fn set_alarm(&mut self, alarm: bool)
        requires
            old(self).wf(),
        ensures
            final(self).state() == (DisplayState { alarm: alarm, ..old(self).state() }),
            final(self).wf(),
            final(self).alarm_is_set() == alarm,
            final(self).cells() == old(self).cells(),
            final(self).cursor() == old(self).cursor(),
            final(self).fields() == old(self).fields(),
            final(self).size() == old(self).size(),
            final(self).keyboard_is_locked() == old(self).keyboard_is_locked(),
    {
        self.alarm = alarm;
    }

    /// Whether the alarm is set.
    pub fn is_alarm(&self) -> (r: bool)
        ensures
            r == self.alarm_is_set(),
    {
        self.alarm
    }

    /// The text of one row.
    pub open spec fn row_text(&self, row: int) -> Seq<char> {
        let cols = self.size().spec_cols() as int;
        Seq::new(cols as nat, |k: int| render_cell(self.cells()[row * cols + k]))
    }

    /// Show one cell.
    fn render(cell: &DisplayCell) -> (r: char)
        ensures
            r == render_cell(*cell),
    {
        if cell.is_field_attr {
            '\u{2588}'
        } else {
            let ch = ebcdic_to_ascii(cell.char_data);
            let v = ch as u32;
            if v >= 0x20 && v <= 0x7E {
                ch
            } else {
                '.'
            }
        }
    }

    /// One row as text, or `None` past the last row.
    pub fn get_row(&self, row: usize) -> (r: Option<String>)
        requires
            self.wf(),
        ensures
            row >= self.size().spec_rows() ==> r is None,
            row < self.size().spec_rows() ==> (r matches Some(t) && t@ == self.row_text(row as int)),
    {
        proof {
            lemma_buffer_size_bounds(self.screen_size);
        }
        if row >= self.rows() {
            return None;
        }
        let cols = self.cols();
        proof {
            vstd::arithmetic::mul::lemma_mul_inequality(row as int, self.size().spec_rows() - 1, cols as int);
            vstd::arithmetic::mul::lemma_mul_is_distributive_sub_other_way(cols as int, self.size().spec_rows() as int, 1);
        }
        let start = row * cols;
        let end = start + cols;
        let mut result = String::new();
        let mut i = start;
        while i < end
            invariant
                self.wf(),
                cols == self.size().spec_cols(),
                start == row * cols,
                end == start + cols,
                end <= self.cells().len(),
                start <= i <= end,
                result@ =~= self.row_text(row as int).subrange(0, i - start),
            decreases end - i,
        {
            let c = Self::render(&self.buffer[i]);
            string_push(&mut result, c);
            i = i + 1;
        }
        Some(result)
    }

    /// The character data of every cell, in buffer order.
    pub fn get_buffer_data(&self) -> (r: Vec<u8>)
        ensures
            r@ == self.cells().map_values(|c: DisplayCell| c.char_data),
    {
        let mut r: Vec<u8> = Vec::new();
        let mut i: usize = 0;
        while i < self.buffer.len()
            invariant
                i <= self.cells().len(),
                self.cells() == self.buffer@,
                r@ =~= self.cells().take(i as int).map_values(|c: DisplayCell| c.char_data),
            decreases self.cells().len() - i,
        {
            r.push(self.buffer[i].char_data);
            i = i + 1;
            assert(r@ =~= self.cells().take(i as int).map_values(|c: DisplayCell| c.char_data));
        }
        assert(self.cells().take(self.cells().len() as int) =~= self.cells());
        r
    }
}

/// The non-null character data of the first `k` positions of a field that
/// starts at `addr`, wrapping at the end of the cells.
pub open spec fn field_payload(cells: Seq<DisplayCell>, addr: int, k: nat) -> Seq<u8>
    decreases k,
{
    if k == 0 {
        Seq::empty()
    } else {
        let p = field_payload(cells, addr, (k - 1) as nat);
        let c = cells[(addr + k - 1) % (cells.len() as int)].char_data;
        if c != 0 {
            p.push(c)
        } else {
            p
        }
    }
}

/// The record sent for one modified field: Set Buffer Address with the
/// field's address as high and low byte, then its non-null data.
pub open spec fn field_record(cells: Seq<DisplayCell>, f: FieldAttribute) -> Seq<u8> {
    seq![ORDER_SBA, ((f.address as int / 256) % 256) as u8, (f.address as int % 256) as u8]
        + field_payload(cells, f.address as int, f.length as nat)
}

/// The records of a list of fields, in order.
pub open spec fn field_records(cells: Seq<DisplayCell>, fs: Seq<FieldAttribute>) -> Seq<u8>
    decreases fs.len(),
{
    if fs.len() == 0 {
        Seq::empty()
    } else {
        field_records(cells, fs.drop_last()) + field_record(cells, fs.last())
    }
}

/// The buffer shown as text: one character per cell, a line break before
/// each row after the first.
pub open spec fn screen_text(cells: Seq<DisplayCell>, cols: int) -> Seq<char>
    decreases cells.len(),
{
    if cells.len() == 0 {
        Seq::empty()
    } else {
        let i = cells.len() - 1;
        let p = screen_text(cells.drop_last(), cols);
        let p2 = if i > 0 && i % cols == 0 {
            p.push('\n')
        } else {
            p
        };
        p2.push(render_cell(cells.last()))
    }
}

impl Display3270 {
    /// Whether every field's last position fits in a machine word.
    pub open spec fn field_extents_fit(&self) -> bool {
        extents_fit(self.fields())
    }

    /// The Read Modified reply built from the screen: the "no AID" byte, the
    /// cursor address as high and low byte, then a record for each field
    /// whose Modified Data Tag is set.
    pub fn get_modified_data(&self) -> (r: Vec<u8>)
        requires
            self.wf(),
            self.field_extents_fit(),
        ensures
            r@ == seq![0x60u8, ((self.cursor() as int / 256) % 256) as u8, (self.cursor() as int % 256) as u8]
                + field_records(
                self.cells(),
                self.fields().filter(|f: FieldAttribute| f.spec_is_modified()),
            ),
    {
        let mut data: Vec<u8> = Vec::new();
        data.push(0x60);
        let cursor_addr = self.cursor_address;
        data.push(((cursor_addr >> 8) & 0xFF) as u8);
        data.push((cursor_addr & 0xFF) as u8);
        proof {
            assert(((cursor_addr >> 8u16) & 0xFFu16) == (cursor_addr / 256) % 256) by (bit_vector);
            assert((cursor_addr & 0xFFu16) == cursor_addr % 256) by (bit_vector);
        }
        let ghost header = data@;
        let ghost cells = self.buffer@;
        let n = self.buffer.len();
        let mf = self.field_manager.modified_fields();
        let ghost mfs = mf@.map_values(|f: &FieldAttribute| *f);
        assert(extents_fit(self.fields()));
        assert(mfs == self.fields().filter(|f: FieldAttribute| f.spec_is_modified()));
        proof {
            let pred = |f: FieldAttribute| f.spec_is_modified();
            assert forall|k: int| 0 <= k < mfs.len() implies #[trigger] self.fields().contains(mfs[k]) by {
                assert(mfs.contains(mfs[k]));
                self.fields().lemma_filter_contains_rev(pred, mfs[k]);
            }
        }
        let mut i: usize = 0;
        while i < mf.len()
            invariant
                self.wf(),
                self.field_extents_fit(),
                cells == self.cells(),
                n == cells.len(),
                n > 0,
                mfs == mf@.map_values(|f: &FieldAttribute| *f),
                forall|k: int| 0 <= k < mfs.len() ==> #[trigger] self.fields().contains(mfs[k]),
                i <= mf@.len(),
                data@ == header + field_records(cells, mfs.take(i as int)),
            decreases mf@.len() - i,
        {
            let field = mf[i];
            let start_addr = field.address as usize;
            let length = field.length;
            proof {
                assert(mfs[i as int] == *field);
                assert(self.fields().contains(*field));
                let j = choose|j: int| 0 <= j < self.fields().len() && self.fields()[j] == *field;
                assert(self.fields()[j].address + self.fields()[j].length <= usize::MAX);
                assert(extents_fit(self.fields()));
            }
            let ghost before = data@;
            data.push(ORDER_SBA);
            data.push(((start_addr >> 8) & 0xFF) as u8);
            data.push((start_addr & 0xFF) as u8);
            proof {
                let a = field.address;
                assert(((a as usize >> 8usize) & 0xFFusize) == (a as usize / 256) % 256) by (bit_vector);
                assert(((a as usize) & 0xFFusize) == (a as usize) % 256) by (bit_vector);
            }
            let ghost mid = data@;
            let mut offset: usize = 0;
            while offset < length
                invariant
                    n == cells.len(),
                    n > 0,
                    cells == self.buffer@,
                    start_addr == field.address,
                    length == field.length,
                    start_addr + length <= usize::MAX,
                    offset <= length,
                    data@ == mid + field_payload(cells, start_addr as int, offset as nat),
                decreases length - offset,
            {
                let addr = (start_addr + offset) % n;
                let ch = self.buffer[addr].char_data;
                if ch != 0x00 {
                    data.push(ch);
                }
                offset = offset + 1;
            }
            proof {
                assert(mfs.take((i + 1) as int).drop_last() =~= mfs.take(i as int));
                assert(mfs.take((i + 1) as int).last() == *field);
                assert(data@ =~= header + field_records(cells, mfs.take((i + 1) as int)));
            }
            i = i + 1;
        }
        assert(mfs.take(mf@.len() as int) =~= mfs);
        data
    }

    /// The whole screen as text, rows separated by line breaks; field
    /// attribute positions show as a block, unprintable characters as dots.
    pub fn to_display_string(&self) -> (r: String)
        requires
            self.wf(),
        ensures
            r@ == screen_text(self.cells(), self.size().spec_cols() as int),
    {
        proof {
            lemma_buffer_size_bounds(self.screen_size);
        }
        let cols = self.cols();
        let mut out = String::new();
        let mut i: usize = 0;
        while i < self.buffer.len()
            invariant
                cols == self.size().spec_cols(),
                cols > 0,
                i <= self.cells().len(),
                self.cells() == self.buffer@,
                out@ == screen_text(self.cells().take(i as int), cols as int),
            decreases self.cells().len() - i,
        {
            if i > 0 && i % cols == 0 {
                string_push(&mut out, '\n');
            }
            let c = Self::render(&self.buffer[i]);
            string_push(&mut out, c);
            proof {
                let t = self.cells().take((i + 1) as int);
                assert(t.drop_last() =~= self.cells().take(i as int));
                assert(t.last() == self.cells()[i as int]);
            }
            i = i + 1;
        }
        assert(self.cells().take(self.cells().len() as int) =~= self.cells());
        out
    }
}

impl Default for Display3270 {
    fn default() -> (r: Self)
        ensures
            r.wf(),
            r.size() == ScreenSize::Model2,
            r.cursor() == 0,
            r.fields() == Seq::<FieldAttribute>::empty(),
    {
        Self::new()
    }
}

/// Whether the cell at `a` holds the attribute of an unprotected field: it
/// is a field attribute, and the field found for it is not protected.
pub open spec fn unprotected_attribute_at(st: DisplayState, a: int) -> bool {
    let i = FieldManager::spec_find_index(st.fields, a as u16);
    st.cells[a].is_field_attr && i >= 0 && !st.fields[i].spec_is_protected()
}

/// The tab search finds the first offset from `k` whose cell holds an
/// unprotected field attribute, and finds one whenever there is one.
proof fn lemma_tab_search_finds(st: DisplayState, k: int)
    requires
        1 <= k,
    ensures
        st.tab_search(k) >= 0 ==> k <= st.tab_search(k) < st.cells.len() && unprotected_attribute_at(
            st,
            (st.cursor + st.tab_search(k)) % (st.cells.len() as int),
        ),
        (exists|j: int| k <= j < st.cells.len() && #[trigger] unprotected_attribute_at(st, (st.cursor + j) % (st.cells.len() as int)))
            ==> st.tab_search(k) >= 0,
    decreases st.cells.len() - k,
{
    if k < st.cells.len() && !st.is_tab_stop(k) {
        lemma_tab_search_finds(st, k + 1);
        if exists|j: int| k <= j < st.cells.len() && #[trigger] unprotected_attribute_at(st, (st.cursor + j) % (st.cells.len() as int)) {
            let j = choose|j: int| k <= j < st.cells.len() && #[trigger] unprotected_attribute_at(st, (st.cursor + j) % (st.cells.len() as int));
            assert(j != k);
        }
    }
}

/// Program Tab lands just past the attribute of an unprotected field: when
/// some cell after the cursor (going round the buffer) holds an unprotected
/// field's attribute, the cursor moves to just after the first such cell;
/// a protected field's attribute is never a tab stop.
pub proof fn lemma_tab_lands_after_unprotected(st: DisplayState)
    requires
        st.wf(),
    ensures
        ({
            let n = st.cells.len() as int;
            let k = st.tab_search(1);
            &&& k >= 0 ==> 1 <= k < n && unprotected_attribute_at(st, (st.cursor + k) % n) && st.tab().cursor == ((st.cursor + k) % n + 1) % n
            &&& (exists|j: int| 1 <= j < n && #[trigger] unprotected_attribute_at(st, (st.cursor + j) % n)) ==> k >= 0
            &&& k >= 0 ==> forall|j: int| 1 <= j < k ==> !#[trigger] unprotected_attribute_at(st, (st.cursor + j) % n)
        }),
{
    lemma_buffer_size_bounds(st.size);
    lemma_tab_search_finds(st, 1);
    lemma_tab_search_first(st, 1);
}

/// Nothing before the offset the tab search finds is a stop.
proof fn lemma_tab_search_first(st: DisplayState, k: int)
    requires
        1 <= k,
    ensures
        st.tab_search(k) >= 0 ==> forall|j: int| k <= j < st.tab_search(k) ==> !#[trigger] unprotected_attribute_at(st, (st.cursor + j) % (st.cells.len() as int)),
    decreases st.cells.len() - k,
{
    if k < st.cells.len() && !st.is_tab_stop(k) {
        lemma_tab_search_first(st, k + 1);
    }
}

} // verus!
