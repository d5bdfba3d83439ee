//! Field detection for 5250 screens: from the text on a screen and from the
//! Start of Field orders in raw data.

use vstd::prelude::*;
use crate::terminal::{CharAttribute, TerminalChar, TerminalScreen, screen_text};
use crate::text::{spec_trim, spec_is_white, is_white, leading_white, trailing_white};

verus! {

/// A field found on a screen or in a data stream.
#[derive(Debug, Clone, PartialEq)]
pub struct Field {
    pub label: Option<String>,
    pub row: usize,
    pub col: usize,
    pub length: usize,
    pub attribute: CharAttribute,
}

/// The number of UTF-8 bytes of a character.
pub open spec fn utf8_width(c: char) -> nat {
    if (c as u32) < 0x80 {
        1
    } else if (c as u32) < 0x800 {
        2
    } else if (c as u32) < 0x10000 {
        3
    } else {
        4
    }
}

/// The number of UTF-8 bytes of a text.
pub open spec fn utf8_count(s: Seq<char>) -> nat
    decreases s.len(),
{
    if s.len() == 0 {
        0
    } else {
        utf8_count(s.drop_last()) + utf8_width(s.last())
    }
}

/// A line without the carriage return that ends it, if any.
pub open spec fn strip_cr(line: Seq<char>) -> Seq<char> {
    if line.len() > 0 && line.last() == '\r' {
        line.drop_last()
    } else {
        line
    }
}

/// The lines of `text` when `cur` has been read of the current line.
pub open spec fn lines_from(text: Seq<char>, cur: Seq<char>) -> Seq<Seq<char>>
    decreases text.len(),
{
    if text.len() == 0 {
        if cur.len() == 0 {
            Seq::empty()
        } else {
            seq![cur]
        }
    } else if text[0] == '\n' {
        seq![strip_cr(cur)] + lines_from(text.drop_first(), Seq::empty())
    } else {
        lines_from(text.drop_first(), cur.push(text[0]))
    }
}

/// The lines of a text as `str::lines` gives them: split after each line
/// feed, the line feed and a carriage return before it removed; no line
/// after a final line feed.
pub open spec fn lines_of(text: Seq<char>) -> Seq<Seq<char>> {
    lines_from(text, Seq::empty())
}

/// No line is longer than the text it comes from.
pub proof fn lemma_lines_len(text: Seq<char>, cur: Seq<char>)
    ensures
        forall|i: int| 0 <= i < lines_from(text, cur).len() ==> (#[trigger] lines_from(text, cur)[i]).len() <= text.len() + cur.len(),
    decreases text.len(),
{
    if text.len() > 0 {
        if text[0] == '\n' {
            lemma_lines_len(text.drop_first(), Seq::empty());
            let rest = lines_from(text.drop_first(), Seq::empty());
            assert forall|i: int| 0 <= i < lines_from(text, cur).len() implies (#[trigger] lines_from(text, cur)[i]).len() <= text.len() + cur.len() by {
                if i > 0 {
                    assert(lines_from(text, cur)[i] == rest[i - 1]);
                }
            }
        } else {
            lemma_lines_len(text.drop_first(), cur.push(text[0]));
            assert(lines_from(text, cur) == lines_from(text.drop_first(), cur.push(text[0])));
            assert forall|i: int| 0 <= i < lines_from(text, cur).len() implies (#[trigger] lines_from(text, cur)[i]).len() <= text.len() + cur.len() by {
                assert(lines_from(text, cur)[i] == lines_from(text.drop_first(), cur.push(text[0]))[i]);
            }
        }
    }
}

/// The position of the first occurrence of a character (the length when
/// there is none).
pub open spec fn first_char(text: Seq<char>, c: char) -> int
    decreases text.len(),
{
    if text.len() == 0 {
        0
    } else if text[0] == c {
        0
    } else {
        1 + first_char(text.drop_first(), c)
    }
}

/// The position of the last occurrence of a character before `end`, or -1.
pub open spec fn last_char_before(text: Seq<char>, c: char, end: int) -> int
    decreases end,
{
    if end <= 0 {
        -1
    } else if text[end - 1] == c {
        end - 1
    } else {
        last_char_before(text, c, end - 1)
    }
}

/// The number of underscores from position `start` onwards.
pub open spec fn underscore_run(line: Seq<char>, start: int) -> nat
    decreases line.len() - start,
{
    if start < 0 || start >= line.len() || line[start] != '_' {
        0
    } else {
        1 + underscore_run(line, start + 1)
    }
}

/// The field a screen line shows, if it has an underscore: at the first
/// underscore, as many underscores as follow the position whose index is
/// that underscore's byte offset, labelled by the trimmed text before the
/// last colon ahead of it.
pub open spec fn line_field(line: Seq<char>, row: int) -> Option<(Option<Seq<char>>, int, int, int)> {
    let k = first_char(line, '_');
    if k >= line.len() {
        None
    } else {
        let col = utf8_count(line.take(k)) as int;
        let j = last_char_before(line, ':', k);
        let label = if j >= 0 { Some(spec_trim(line.take(j))) } else { None };
        Some((label, row + 1, col + 1, underscore_run(line, col) as int))
    }
}

/// The fields of a list of lines, starting at row index `row0`.
pub open spec fn screen_fields(lines: Seq<Seq<char>>, row0: int) -> Seq<(Option<Seq<char>>, int, int, int)>
    decreases lines.len(),
{
    if lines.len() == 0 {
        Seq::empty()
    } else {
        let rest = screen_fields(lines.drop_last(), row0);
        match line_field(lines.last(), row0 + lines.len() - 1) {
            Some(f) => rest.push(f),
            None => rest,
        }
    }
}

/// A field by its label text, row, column and length.
pub open spec fn field_view(f: Field) -> (Option<Seq<char>>, int, int, int) {
    (
        match f.label {
            Some(l) => Some(l@),
            None => None,
        },
        f.row as int,
        f.col as int,
        f.length as int,
    )
}

/// Detect fields on a screen: each line of its text with an underscore
/// gives one field (see `line_field`), attributed as protected.
pub fn detect_fields_from_screen(screen: &TerminalScreen) -> (r: Vec<Field>)
    requires
        screen.wf(),
        4 * ((screen.width + 1) * screen.height) < usize::MAX,
    ensures
        r@.map_values(|f: Field| field_view(f)) == screen_fields(
            lines_of(screen_text(screen.buffer@, screen.width as int, screen.height as nat)),
            0,
        ),
        forall|i: int| 0 <= i < r@.len() ==> (#[trigger] r@[i]).attribute == CharAttribute::Protected,
{
    let text = screen_chars(screen);
    let lines = split_lines(&text);
    let ghost ls = lines@.map_values(|l: Vec<char>| l@);
    proof {
        lemma_screen_text_len(screen.buffer@, screen.width as int, screen.height as nat);
        lemma_lines_len(text@, Seq::empty());
        assert forall|i: int| 0 <= i < ls.len() implies 4 * (#[trigger] ls[i]).len() < usize::MAX by {
            assert(ls[i] == lines_of(text@)[i]);
        }
        assert(lines@.len() < usize::MAX) by {
            lemma_lines_count(text@, Seq::empty());
        }
    }
    let mut fields: Vec<Field> = Vec::new();
    let mut row_idx: usize = 0;
    while row_idx < lines.len()
        invariant
            ls == lines@.map_values(|l: Vec<char>| l@),
            ls == lines_of(screen_text(screen.buffer@, screen.width as int, screen.height as nat)),
            forall|i: int| 0 <= i < ls.len() ==> 4 * (#[trigger] ls[i]).len() < usize::MAX,
            row_idx <= ls.len(),
            fields@.map_values(|f: Field| field_view(f)) == screen_fields(ls.take(row_idx as int), 0),
            forall|i: int| 0 <= i < fields@.len() ==> (#[trigger] fields@[i]).attribute == CharAttribute::Protected,
        decreases ls.len() - row_idx,
    {
        let line = &lines[row_idx];
        proof {
            assert(ls.take(row_idx + 1).drop_last() =~= ls.take(row_idx as int));
            assert(ls.take(row_idx + 1).last() == line@);
        }
        let ghost before = fields@;
        match line_field_exec(line, row_idx) {
            Some(f) => {
                fields.push(f);
                assert(fields@.map_values(|f: Field| field_view(f)) =~= before.map_values(|f: Field| field_view(f)).push(field_view(f)));
            },
            None => {},
        }
        row_idx = row_idx + 1;
    }
    assert(ls.take(ls.len() as int) =~= ls);
    fields
}

/// A screen's text has one more character per row than the row width.
pub proof fn lemma_screen_text_len(cells: Seq<TerminalChar>, width: int, rows: nat)
    requires
        width >= 0,
    ensures
        screen_text(cells, width, rows).len() == (width + 1) * rows,
    decreases rows,
{
    if rows > 0 {
        lemma_screen_text_len(cells, width, (rows - 1) as nat);
        assert(crate::terminal::row_chars(cells, width, rows - 1).len() == width);
        assert((width + 1) * rows == (width + 1) * (rows - 1) + width + 1) by (nonlinear_arith);
        assert(screen_text(cells, width, rows).len() == screen_text(cells, width, (rows - 1) as nat).len() + width + 1);
    } else {
        assert((width + 1) * rows == 0) by (nonlinear_arith)
            requires
                rows == 0,
        ;
    }
}

/// There are no more lines than characters plus one.
pub proof fn lemma_lines_count(text: Seq<char>, cur: Seq<char>)
    ensures
        lines_from(text, cur).len() <= text.len() + 1,
    decreases text.len(),
{
    if text.len() > 0 {
        if text[0] == '\n' {
            lemma_lines_count(text.drop_first(), Seq::empty());
        } else {
            lemma_lines_count(text.drop_first(), cur.push(text[0]));
        }
    }
}

/// The characters of a screen's text (see `TerminalScreen::to_string`).
fn screen_chars(screen: &TerminalScreen) -> (r: Vec<char>)
    requires
        screen.wf(),
    ensures
        r@ == screen_text(screen.buffer@, screen.width as int, screen.height as nat),
{
    let mut s: Vec<char> = Vec::new();
    let mut y: usize = 0;
    while y < screen.height
        invariant
            screen.wf(),
            y <= screen.height,
            s@ == screen_text(screen.buffer@, screen.width as int, y as nat),
        decreases screen.height - y,
    {
        let ghost before = s@;
        let mut x: usize = 0;
        while x < screen.width
            invariant
                screen.wf(),
                y < screen.height,
                x <= screen.width,
                s@ == before + crate::terminal::row_chars(screen.buffer@, screen.width as int, y as int).take(x as int),
            decreases screen.width - x,
        {
            proof {
                crate::terminal::lemma_index_in_grid(x as int, y as int, screen.width as int, screen.height as int);
            }
            s.push(screen.buffer[y * screen.width + x].character);
            x = x + 1;
            assert(s@ =~= before + crate::terminal::row_chars(screen.buffer@, screen.width as int, y as int).take(x as int));
        }
        assert(crate::terminal::row_chars(screen.buffer@, screen.width as int, y as int).take(x as int) =~= crate::terminal::row_chars(screen.buffer@, screen.width as int, y as int));
        s.push('\n');
        y = y + 1;
    }
    s
}

/// Split a text into its lines (see `lines_of`).
fn split_lines(text: &Vec<char>) -> (r: Vec<Vec<char>>)
    ensures
        r@.map_values(|l: Vec<char>| l@) == lines_of(text@),
{
    let mut lines: Vec<Vec<char>> = Vec::new();
    let mut current: Vec<char> = Vec::new();
    let mut i: usize = 0;
    assert(text@.skip(0) =~= text@);
    assert(Seq::<Seq<char>>::empty() + lines_of(text@) =~= lines_of(text@));
    while i < text.len()
        invariant
            i <= text@.len(),
            lines@.map_values(|l: Vec<char>| l@) + lines_from(text@.skip(i as int), current@) == lines_of(text@),
        decreases text@.len() - i,
    {
        let c = text[i];
        let ghost rest = text@.skip(i as int);
        assert(rest.drop_first() =~= text@.skip(i + 1));
        assert(rest[0] == c);
        let ghost prev = lines@.map_values(|l: Vec<char>| l@);
        if c == '\n' {
            let ghost cur0 = current@;
            let mut line = current;
            let n = line.len();
            if n > 0 && line[n - 1] == '\r' {
                line.pop();
                assert(line@ =~= strip_cr(cur0));
            }
            lines.push(line);
            current = Vec::new();
            proof {
                assert(line@ == strip_cr(cur0));
                assert(lines@.map_values(|l: Vec<char>| l@) =~= prev.push(strip_cr(cur0)));
                assert(prev.push(strip_cr(cur0)) + lines_from(text@.skip(i + 1), Seq::empty())
                    =~= prev + (seq![strip_cr(cur0)] + lines_from(text@.skip(i + 1), Seq::empty())));
            }
        } else {
            current.push(c);
        }
        i = i + 1;
    }
    let ghost prev = lines@.map_values(|l: Vec<char>| l@);
    assert(text@.skip(i as int) =~= Seq::<char>::empty());
    if current.len() > 0 {
        lines.push(current);
        assert(lines@.map_values(|l: Vec<char>| l@) =~= prev + seq![current@]);
    } else {
        assert(prev + Seq::<Seq<char>>::empty() =~= prev);
    }
    lines
}

/// `first_char` is the first position holding the character.
proof fn lemma_first_char(text: Seq<char>, c: char, i: int)
    requires
        0 <= i < text.len(),
        text[i] == c,
        forall|j: int| 0 <= j < i ==> text[j] != c,
    ensures
        first_char(text, c) == i,
    decreases i,
{
    if i > 0 {
        lemma_first_char(text.drop_first(), c, i - 1);
    }
}

/// The field a line shows (see `line_field`), attributed as protected.
fn line_field_exec(line: &Vec<char>, row_idx: usize) -> (r: Option<Field>)
    requires
        row_idx < usize::MAX,
        4 * line@.len() < usize::MAX,
    ensures
        match line_field(line@, row_idx as int) {
            Some(f) => r matches Some(x) && field_view(x) == f && x.attribute == CharAttribute::Protected,
            None => r is None,
        },
{
    let n = line.len();
    let mut k: usize = 0;
    let mut bytes: usize = 0;
    while k < n && line[k] != '_'
        invariant
            n == line@.len(),
            k <= n,
            forall|j: int| 0 <= j < k ==> line@[j] != '_',
            bytes == utf8_count(line@.take(k as int)),
            bytes <= 4 * k,
            4 * line@.len() < usize::MAX,
        decreases n - k,
    {
        let c = line[k];
        let v = #[verifier::truncate] (c as u32);
        let w: usize = if v < 0x80 { 1 } else if v < 0x800 { 2 } else if v < 0x10000 { 3 } else { 4 };
        proof {
            assert(line@.take(k + 1).drop_last() =~= line@.take(k as int));
        }
        bytes = bytes + w;
        k = k + 1;
    }
    if k >= n {
        proof {
            lemma_first_char_absent(line@, '_');
        }
        return None;
    }
    proof {
        lemma_first_char(line@, '_', k as int);
    }
    let col = bytes;
    let mut length: usize = 0;
    let mut p = col;
    while p < n && line[p] == '_'
        invariant
            n == line@.len(),
            col <= p,
            length == p - col,
            underscore_run(line@, col as int) == length + underscore_run(line@, p as int),
        decreases n - p,
    {
        length = length + 1;
        p = p + 1;
    }
    let mut j: usize = k;
    while j > 0 && line[j - 1] != ':'
        invariant
            j <= k < n,
            n == line@.len(),
            last_char_before(line@, ':', k as int) == last_char_before(line@, ':', j as int),
        decreases j,
    {
        j = j - 1;
    }
    let label = if j > 0 {
        Some(trimmed(line, j - 1))
    } else {
        None
    };
    Some(Field { label, row: row_idx + 1, col: col + 1, length, attribute: CharAttribute::Protected })
}

/// No occurrence: `first_char` is the length.
proof fn lemma_first_char_absent(text: Seq<char>, c: char)
    requires
        forall|j: int| 0 <= j < text.len() ==> text[j] != c,
    ensures
        first_char(text, c) == text.len(),
    decreases text.len(),
{
    if text.len() > 0 {
        lemma_first_char_absent(text.drop_first(), c);
    }
}

/// The first `end` characters of a line, trimmed, as a string.
fn trimmed(line: &Vec<char>, end: usize) -> (r: String)
    requires
        end <= line@.len(),
    ensures
        r@ == spec_trim(line@.take(end as int)),
{
    let ghost t = line@.take(end as int);
    assert(t.skip(0) =~= t);
    let mut a: usize = 0;
    while a < end && is_white(line[a])
        invariant
            a <= end <= line@.len(),
            t == line@.take(end as int),
            leading_white(t) == a + leading_white(t.skip(a as int)),
        decreases end - a,
    {
        proof {
            assert(t.skip(a as int).drop_first() =~= t.skip(a + 1));
        }
        a = a + 1;
    }
    proof {
        assert(leading_white(t.skip(a as int)) == 0);
    }
    let mut s = String::new();
    if a == end {
        return s;
    }
    let mut b: usize = end;
    assert(t.take(end as int) =~= t);
    while b > a && is_white(line[b - 1])
        invariant
            a < end,
            a < b,
            !spec_is_white(line@[a as int]),
            a <= b <= end <= line@.len(),
            t == line@.take(end as int),
            trailing_white(t) == (end - b) + trailing_white(t.take(b as int)),
        decreases b,
    {
        proof {
            assert(t.take(b as int).drop_last() =~= t.take(b - 1));
        }
        b = b - 1;
    }
    proof {
        assert(t.take(b as int).last() == line@[b - 1]);
        assert(trailing_white(t.take(b as int)) == 0);
    }
    let mut i = a;
    while i < b
        invariant
            a <= i <= b <= line@.len(),
            s@ == line@.subrange(a as int, i as int),
        decreases b - i,
    {
        crate::text::string_push(&mut s, line[i]);
        i = i + 1;
        assert(s@ =~= line@.subrange(a as int, i as int));
    }
    assert(s@ =~= t.subrange(a as int, end - (end - b)));
    s
}

/// The attribute an attribute byte selects.
pub fn parse_field_attribute(attribute_byte: u8) -> (r: CharAttribute)
    ensures
        r == CharAttribute::spec_from_byte(attribute_byte),
{
    CharAttribute::from_u8(attribute_byte)
}

/// The (length, attribute) of each field in raw data from `pos`: a Start
/// of Field byte (0x1D) followed by a length and an attribute byte starts a
/// field whose data is skipped; a Start of Field without those two bytes
/// ends the search; other bytes are skipped.
pub open spec fn protocol_fields(data: Seq<u8>, pos: int) -> Seq<(int, CharAttribute)>
    decreases data.len() - pos,
{
    if pos < 0 || pos >= data.len() {
        Seq::empty()
    } else if data[pos] == 0x1D {
        let p = pos + 1;
        if p + 1 < data.len() {
            let next = p + 2 + data[p];
            seq![(data[p] as int, CharAttribute::spec_from_byte(data[p + 1]))] + if next < data.len() {
                protocol_fields(data, next)
            } else {
                Seq::empty()
            }
        } else {
            Seq::empty()
        }
    } else {
        protocol_fields(data, pos + 1)
    }
}

/// The (length, attribute) of each field.
pub open spec fn length_attrs(fields: Seq<Field>) -> Seq<(int, CharAttribute)> {
    fields.map_values(|f: Field| (f.length as int, f.attribute))
}

/// Detect fields in raw 5250 data (see `protocol_fields`); position is not
/// tracked, so row and column are 0 and there is no label.
pub fn detect_fields_from_protocol_data(data: &[u8]) -> (r: Vec<Field>)
    ensures
        length_attrs(r@) == protocol_fields(data@, 0),
        forall|i: int| 0 <= i < r@.len() ==> {
            &&& (#[trigger] r@[i]).label is None
            &&& r@[i].row == 0
            &&& r@[i].col == 0
        },
{
    let mut fields: Vec<Field> = Vec::new();
    let mut pos: usize = 0;
    while pos < data.len()
        invariant
            pos <= data@.len(),
            protocol_fields(data@, 0) == length_attrs(fields@) + protocol_fields(data@, pos as int),
            forall|i: int| 0 <= i < fields@.len() ==> {
                &&& (#[trigger] fields@[i]).label is None
                &&& fields@[i].row == 0
                &&& fields@[i].col == 0
            },
        decreases data@.len() - pos,
    {
        let ghost p0 = pos as int;
        if data[pos] == 0x1D {
            pos = pos + 1;
            if data.len() - pos > 1 {
                let field_length = data[pos] as usize;
                let attribute_byte = data[pos + 1];
                let next = if field_length + 2 >= data.len() - pos { data.len() } else { pos + 2 + field_length };
                let attribute = parse_field_attribute(attribute_byte);
                let ghost before = fields@;
                fields.push(Field { label: None, row: 0, col: 0, length: field_length, attribute });
                proof {
                    if next == data.len() {
                        assert(protocol_fields(data@, next as int) =~= Seq::<(int, CharAttribute)>::empty());
                    }
                    assert(length_attrs(fields@) =~= length_attrs(before).push((field_length as int, attribute)));
                    assert(length_attrs(before).push((field_length as int, attribute)) + protocol_fields(data@, next as int)
                        =~= length_attrs(before) + (seq![(field_length as int, attribute)] + protocol_fields(data@, next as int)));
                }
                pos = next;
            } else {
                assert(protocol_fields(data@, p0) =~= Seq::<(int, CharAttribute)>::empty());
                assert(length_attrs(fields@) + Seq::<(int, CharAttribute)>::empty() =~= length_attrs(fields@));
                pos = data.len();
            }
        } else {
            pos = pos + 1;
        }
    }
    assert(length_attrs(fields@) + Seq::<(int, CharAttribute)>::empty() =~= length_attrs(fields@));
    fields
}

} // verus!
