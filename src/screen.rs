use vstd::prelude::*;
use vstd::string::StringSliceAdditionalSpecFns;

verus! {

/// Number of text rows of a screen.
pub const BUFFER_HEIGHT: usize = 25;

/// Number of text columns of a screen.
pub const BUFFER_WIDTH: usize = 80;

/// The style byte of every glyph written here: white on black.
pub const DEFAULT_COLOR: u8 = 0x0f;

/// One display cell: a glyph byte and a style byte.
#[derive(Clone, Copy, Debug, PartialEq, Eq, Structural)]
pub struct ScreenChar {
    pub ascii_character: u8,
    pub color_code: u8,
}

/// A full grid of cells, row by row.
pub struct Buffer {
    pub chars: [[ScreenChar; BUFFER_WIDTH]; BUFFER_HEIGHT],
}

/// One virtual screen: an identity, a grid and a write cursor.
pub struct Screen {
    pub id: usize,
    pub column_position: usize,
    pub row_position: usize,
    pub buffer: Buffer,
}

/// The mathematical picture of a screen: the grid as rows of cells and the
/// cursor as integers.
pub struct ScreenState {
    pub id: usize,
    pub grid: Seq<Seq<ScreenChar>>,
    pub row: int,
    pub col: int,
}

pub open spec fn glyph(b: u8) -> ScreenChar {
    ScreenChar { ascii_character: b, color_code: DEFAULT_COLOR }
}

pub open spec fn blank_char() -> ScreenChar {
    glyph(0x20)
}

pub open spec fn blank_row() -> Seq<ScreenChar> {
    Seq::new(BUFFER_WIDTH as nat, |c: int| blank_char())
}

pub open spec fn blank_grid() -> Seq<Seq<ScreenChar>> {
    Seq::new(BUFFER_HEIGHT as nat, |r: int| blank_row())
}

/// A grid has the display's shape.
pub open spec fn grid_shaped(g: Seq<Seq<ScreenChar>>) -> bool {
    &&& g.len() == BUFFER_HEIGHT
    &&& forall|r: int| 0 <= r < BUFFER_HEIGHT ==> (#[trigger] g[r]).len() == BUFFER_WIDTH
}

/// The grid with one cell replaced.
pub open spec fn put_cell(g: Seq<Seq<ScreenChar>>, r: int, c: int, ch: ScreenChar) -> Seq<
    Seq<ScreenChar>,
> {
    g.update(r, g[r].update(c, ch))
}

/// Every row moved up by one; the top row is dropped and a blank row enters
/// at the bottom.
pub open spec fn scrolled(g: Seq<Seq<ScreenChar>>) -> Seq<Seq<ScreenChar>> {
    g.subrange(1, BUFFER_HEIGHT as int).push(blank_row())
}

impl ScreenState {
    /// The grid has the display's shape and the column lies within the
    /// width, which it may equal. The row may stand past the last row: a
    /// newline never scrolls, so newlines at the bottom move the row on, and
    /// only the next glyph scrolls (once) and brings the row back to the
    /// last one. The row is a machine word.
    pub open spec fn wf(self) -> bool {
        &&& grid_shaped(self.grid)
        &&& 0 <= self.row <= usize::MAX
        &&& 0 <= self.col <= BUFFER_WIDTH
    }

    /// The row below: always one more, saturating only at the largest
    /// machine word.
    pub open spec fn next_row(self) -> int {
        if self.row < usize::MAX {
            self.row + 1
        } else {
            self.row
        }
    }

    /// The state after writing one byte at the cursor. A newline moves to
    /// the start of the next row, with no scroll and the grid untouched,
    /// also when the row is already past the last one. Any other byte first wraps a column at the
    /// width, then scrolls once if the row is past the last one, writes the
    /// glyph, and advances the column, wrapping at the width.
    pub open spec fn write_byte(self, b: u8) -> ScreenState {
        if b == 0x0a {
            ScreenState { row: self.next_row(), col: 0, ..self }
        } else {
            let s1 = if self.col >= BUFFER_WIDTH {
                ScreenState { row: self.next_row(), col: 0, ..self }
            } else {
                self
            };
            let s2 = if s1.row >= BUFFER_HEIGHT {
                ScreenState { grid: scrolled(s1.grid), row: BUFFER_HEIGHT - 1, ..s1 }
            } else {
                s1
            };
            let g = put_cell(s2.grid, s2.row, s2.col, glyph(b));
            if s2.col + 1 >= BUFFER_WIDTH {
                ScreenState { grid: g, row: s2.row + 1, col: 0, ..s2 }
            } else {
                ScreenState { grid: g, col: s2.col + 1, ..s2 }
            }
        }
    }

    /// The state after writing every byte of `bytes` in order.
    pub open spec fn write_bytes(self, bytes: Seq<u8>) -> ScreenState
        decreases bytes.len(),
    {
        if bytes.len() == 0 {
            self
        } else {
            self.write_bytes(bytes.drop_last()).write_byte(bytes.last())
        }
    }

    /// A blank grid with the cursor at the top left.
    pub open spec fn cleared(self) -> ScreenState {
        ScreenState { grid: blank_grid(), row: 0, col: 0, ..self }
    }
}

pub proof fn lemma_write_byte_wf(s: ScreenState, b: u8)
    requires
        s.wf(),
    ensures
        s.write_byte(b).wf(),
        s.write_byte(b).id == s.id,
{
    if b != 0x0a {
        let s1 = if s.col >= BUFFER_WIDTH {
            ScreenState { row: s.next_row(), col: 0, ..s }
        } else {
            s
        };
        let s2 = if s1.row >= BUFFER_HEIGHT {
            ScreenState { grid: scrolled(s1.grid), row: BUFFER_HEIGHT - 1, ..s1 }
        } else {
            s1
        };
        assert(grid_shaped(s2.grid));
        let g = put_cell(s2.grid, s2.row, s2.col, glyph(b));
        assert(grid_shaped(g));
    }
}

/// Writing `a` then `b` is writing `a + b`.
pub proof fn lemma_write_bytes_concat(s: ScreenState, a: Seq<u8>, b: Seq<u8>)
    ensures
        s.write_bytes(a + b) == s.write_bytes(a).write_bytes(b),
    decreases b.len(),
{
    if b.len() == 0 {
        assert(a + b =~= a);
    } else {
        assert((a + b).drop_last() =~= a + b.drop_last());
        assert((a + b).last() == b.last());
        lemma_write_bytes_concat(s, a, b.drop_last());
    }
}

impl View for Buffer {
    type V = Seq<Seq<ScreenChar>>;

    open spec fn view(&self) -> Seq<Seq<ScreenChar>> {
        Seq::new(BUFFER_HEIGHT as nat, |r: int| self.chars@[r]@)
    }
}

impl Buffer {

    /// A grid of blank cells.
    pub fn new() -> (b: Buffer)
        ensures
            b@ == blank_grid(),
    {
        let blank = ScreenChar { ascii_character: 0x20, color_code: DEFAULT_COLOR };
        let row: [ScreenChar; BUFFER_WIDTH] = [blank; BUFFER_WIDTH];
        let b = Buffer { chars: [row; BUFFER_HEIGHT] };
        assert(row@ =~= blank_row());
        assert(b@ =~= blank_grid());
        b
    }
}

impl View for Screen {
    type V = ScreenState;

    open spec fn view(&self) -> ScreenState {
        ScreenState {
            id: self.id,
            grid: self.buffer@,
            row: self.row_position as int,
            col: self.column_position as int,
        }
    }
}

impl Screen {
    /// The cursor lies within the bounds that `ScreenState::wf` allows.
    pub open spec fn wf(&self) -> bool {
        self.column_position <= BUFFER_WIDTH
    }

    /// A blank screen with the cursor at the top left.
    pub fn new(id: usize) -> (s: Screen)
        ensures
            s.wf(),
            s@ == (ScreenState { id, grid: blank_grid(), row: 0, col: 0 }),
    {
        Screen { id, column_position: 0, row_position: 0, buffer: Buffer::new() }
    }

    /// Blanks every cell and moves the cursor to the top left.
    pub fn clear(&mut self)
        ensures
            final(self).wf(),
            final(self)@ == old(self)@.cleared(),
    {
        self.buffer = Buffer::new();
        self.column_position = 0;
        self.row_position = 0;
    }

    pub fn column_position(&self) -> (c: usize)
        ensures
            c == self.column_position,
    {
        self.column_position
    }

    pub fn row_position(&self) -> (r: usize)
        ensures
            r == self.row_position,
    {
        self.row_position
    }

    pub fn set_column_position(&mut self, pos: usize)
        requires
            pos <= BUFFER_WIDTH,
        ensures
            *final(self) == (Screen { column_position: pos, ..*old(self) }),
    {
        self.column_position = pos;
    }

    pub fn set_row_position(&mut self, pos: usize)
        ensures
            *final(self) == (Screen { row_position: pos, ..*old(self) }),
    {
        self.row_position = pos;
    }

    /// Direct access to the grid; the cursor is left alone.
    pub fn buffer_mut(&mut self) -> (b: &mut Buffer)
        ensures
            *b == old(self).buffer,
            *final(self) == (Screen { buffer: *final(b), ..*old(self) }),
    {
        &mut self.buffer
    }

    pub fn set_cursor_position(&mut self, row: usize, col: usize)
        requires
            col <= BUFFER_WIDTH,
        ensures
            *final(self) == (Screen { row_position: row, column_position: col, ..*old(self) }),
    {
        self.row_position = row;
        self.column_position = col;
    }

    /// Puts a glyph into one cell without touching the cursor.
    pub fn write_byte_at(&mut self, row: usize, col: usize, byte: u8)
        requires
            row < BUFFER_HEIGHT,
            col < BUFFER_WIDTH,
        ensures
            final(self).id == old(self).id,
            final(self).row_position == old(self).row_position,
            final(self).column_position == old(self).column_position,
            final(self)@.grid == put_cell(old(self)@.grid, row as int, col as int, glyph(byte)),
    {
        self.buffer.chars[row][col] = ScreenChar { ascii_character: byte, color_code: DEFAULT_COLOR };
        assert(self@.grid =~= put_cell(old(self)@.grid, row as int, col as int, glyph(byte)));
    }

    /// Moves every row up by one and blanks the bottom row; the cursor is
    /// left alone.
    pub fn scroll_up(&mut self)
        ensures
            final(self).id == old(self).id,
            final(self).row_position == old(self).row_position,
            final(self).column_position == old(self).column_position,
            final(self)@.grid == scrolled(old(self)@.grid),
    {
        let mut row: usize = 1;
        while row < BUFFER_HEIGHT
            invariant
                1 <= row <= BUFFER_HEIGHT,
                self.id == old(self).id,
                self.row_position == old(self).row_position,
                self.column_position == old(self).column_position,
                forall|r: int| 0 <= r < row - 1 ==> self.buffer.chars@[r] == old(self).buffer.chars@[r + 1],
                forall|r: int| row - 1 <= r < BUFFER_HEIGHT ==> self.buffer.chars@[r] == old(self).buffer.chars@[r],
            decreases BUFFER_HEIGHT - row,
        {
            self.buffer.chars[row - 1] = self.buffer.chars[row];
            row = row + 1;
        }
        let blank = ScreenChar { ascii_character: 0x20, color_code: DEFAULT_COLOR };
        self.buffer.chars[BUFFER_HEIGHT - 1] = [blank; BUFFER_WIDTH];
        assert(self.buffer.chars@[BUFFER_HEIGHT - 1]@ =~= blank_row());
        assert(self@.grid =~= scrolled(old(self)@.grid));
    }

    /// Writes one byte at the cursor, as `ScreenState::write_byte` describes.
    pub fn write_byte(&mut self, byte: u8)
        requires
            old(self).wf(),
        ensures
            final(self).wf(),
            final(self)@ == old(self)@.write_byte(byte),
    {
        if byte == 0x0a {
            self.row_position = self.row_position.saturating_add(1);
            self.column_position = 0;
        } else {
            if self.column_position >= BUFFER_WIDTH {
                self.row_position = self.row_position.saturating_add(1);
                self.column_position = 0;
            }
            if self.row_position >= BUFFER_HEIGHT {
                self.scroll_up();
                self.row_position = BUFFER_HEIGHT - 1;
            }
            let row = self.row_position;
            let col = self.column_position;
            self.write_byte_at(row, col, byte);
            self.column_position = col + 1;
            if self.column_position >= BUFFER_WIDTH {
                self.column_position = 0;
                self.row_position = row + 1;
            }
        }
    }

    /// Writes every byte of `s` in order.
    pub fn write_str(&mut self, s: &str)
        requires
            old(self).wf(),
        ensures
            final(self).wf(),
            final(self)@ == old(self)@.write_bytes(s.spec_bytes()),
    {
        let bytes = s.as_bytes();
        self.write_slice(bytes);
    }

    /// Writes every byte of `bytes` in order.
    pub fn write_slice(&mut self, bytes: &[u8])
        requires
            old(self).wf(),
        ensures
            final(self).wf(),
            final(self)@ == old(self)@.write_bytes(bytes@),
    {
        let mut i: usize = 0;
        while i < bytes.len()
            invariant
                i <= bytes@.len(),
                self.wf(),
                self@ == old(self)@.write_bytes(bytes@.take(i as int)),
            decreases bytes@.len() - i,
        {
            assert(bytes@.take(i + 1).drop_last() =~= bytes@.take(i as int));
            self.write_byte(bytes[i]);
            i = i + 1;
        }
        assert(bytes@.take(i as int) =~= bytes@);
    }
}

/// Sequential output onto one screen.
pub struct Writer<'a> {
    pub screen: &'a mut Screen,
}

impl<'a> Writer<'a> {
    pub fn new(screen: &'a mut Screen) -> (w: Writer<'a>)
        ensures
            *w.screen == *old(screen),
            *final(screen) == *final(w.screen),
    {
        Writer { screen }
    }

    /// Writes one byte at the screen's cursor, as `ScreenState::write_byte`
    /// describes.
    pub fn write_byte(&mut self, byte: u8)
        requires
            old(self).screen.wf(),
        ensures
            final(self).screen.wf(),
            final(self).screen@ == old(self).screen@.write_byte(byte),
    {
        self.screen.write_byte(byte);
    }

    /// Moves every row of the screen up by one and blanks the bottom row.
    pub fn scroll_up(&mut self)
        ensures
            final(self).screen.id == old(self).screen.id,
            final(self).screen.row_position == old(self).screen.row_position,
            final(self).screen.column_position == old(self).screen.column_position,
            final(self).screen@.grid == scrolled(old(self).screen@.grid),
    {
        self.screen.scroll_up();
    }

    /// Writes every byte of `s` in order.
    pub fn write_str(&mut self, s: &str)
        requires
            old(self).screen.wf(),
        ensures
            final(self).screen.wf(),
            final(self).screen@ == old(self).screen@.write_bytes(s.spec_bytes()),
    {
        self.screen.write_str(s);
    }
}

/// A row that shows `text` from its first column, blank after it.
pub open spec fn text_row(text: Seq<u8>) -> Seq<ScreenChar> {
    Seq::new(BUFFER_WIDTH as nat, |c: int| if c < text.len() { glyph(text[c]) } else { blank_char() })
}

/// The lines, each followed by a newline, one after another.
pub open spec fn joined(lines: Seq<Seq<u8>>) -> Seq<u8>
    decreases lines.len(),
{
    if lines.len() == 0 {
        Seq::empty()
    } else {
        joined(lines.drop_last()) + lines.last() + seq![0x0au8]
    }
}

/// A line that fits on one row: no newline in it and shorter than a row.
pub open spec fn fits_row(line: Seq<u8>) -> bool {
    &&& line.len() < BUFFER_WIDTH
    &&& forall|i: int| 0 <= i < line.len() ==> line[i] != 0x0a
}

/// Where writing the first `j` bytes of `line` from the start of row
/// `s.row` leads, when that row is blank or lies past the last row.
pub open spec fn line_written(s: ScreenState, line: Seq<u8>, j: int) -> ScreenState {
    if j == 0 {
        s
    } else {
        let g = if s.row < BUFFER_HEIGHT {
            s.grid
        } else {
            scrolled(s.grid)
        };
        let r = if s.row < BUFFER_HEIGHT {
            s.row
        } else {
            BUFFER_HEIGHT - 1
        };
        ScreenState { grid: g.update(r, text_row(line.take(j))), row: r, col: j, ..s }
    }
}

proof fn lemma_line_prefix(s: ScreenState, line: Seq<u8>, j: int)
    requires
        s.wf(),
        s.col == 0,
        fits_row(line),
        0 <= j <= line.len(),
        s.row < BUFFER_HEIGHT ==> s.grid[s.row] == blank_row(),
    ensures
        s.write_bytes(line.take(j)) == line_written(s, line, j),
    decreases j,
{
    if j == 0 {
        assert(line.take(0) =~= Seq::<u8>::empty());
    } else {
        lemma_line_prefix(s, line, j - 1);
        assert(line.take(j).drop_last() =~= line.take(j - 1));
        let prev = line_written(s, line, j - 1);
        let next = line_written(s, line, j);
        let b = line[j - 1];
        assert(b != 0x0a);
        if j == 1 {
            if s.row < BUFFER_HEIGHT {
                assert(put_cell(s.grid, s.row, 0, glyph(b)) =~~= s.grid.update(
                    s.row,
                    text_row(line.take(1)),
                ));
            } else {
                let g = scrolled(s.grid);
                assert(g[BUFFER_HEIGHT - 1] == blank_row());
                assert(put_cell(g, BUFFER_HEIGHT - 1, 0, glyph(b)) =~~= g.update(
                    BUFFER_HEIGHT - 1,
                    text_row(line.take(1)),
                ));
            }
        } else {
            assert(prev.row < BUFFER_HEIGHT);
            assert(put_cell(prev.grid, prev.row, j - 1, glyph(b)) =~~= next.grid);
        }
        assert(s.write_bytes(line.take(j)) == prev.write_byte(b));
    }
}

/// Writing one line and its newline from the start of a blank row (or past
/// the last row, which scrolls once) fills that row with the line and moves
/// to the start of the next.
proof fn lemma_line(s: ScreenState, line: Seq<u8>)
    requires
        s.wf(),
        s.col == 0,
        fits_row(line),
        line.len() > 0 || s.row < BUFFER_HEIGHT,
        s.row < BUFFER_HEIGHT ==> s.grid[s.row] == blank_row(),
    ensures
        ({
            let t = s.write_bytes(line + seq![0x0au8]);
            let g = if s.row < BUFFER_HEIGHT {
                s.grid
            } else {
                scrolled(s.grid)
            };
            let r = if s.row < BUFFER_HEIGHT {
                s.row
            } else {
                BUFFER_HEIGHT - 1
            };
            &&& t.grid == g.update(r, text_row(line))
            &&& t.row == r + 1
            &&& t.col == 0
            &&& t.id == s.id
        }),
{
    lemma_line_prefix(s, line, line.len() as int);
    assert(line.take(line.len() as int) =~= line);
    lemma_write_bytes_concat(s, line, seq![0x0au8]);
    let u = line_written(s, line, line.len() as int);
    assert(seq![0x0au8].drop_last() =~= Seq::<u8>::empty());
    assert(u.write_bytes(seq![0x0au8]) == u.write_bytes(Seq::<u8>::empty()).write_byte(0x0a));
    if line.len() == 0 {
        assert(text_row(line) =~= blank_row());
        assert(s.grid.update(s.row, text_row(line)) =~= s.grid);
    }
}

/// The screen after the first `k` lines (k at most the height) were written
/// to a blank screen: one line per row from the top, blank below.
pub open spec fn first_lines(s: ScreenState, lines: Seq<Seq<u8>>, k: int) -> ScreenState {
    ScreenState {
        grid: Seq::new(
            BUFFER_HEIGHT as nat,
            |r: int|
                if r < k {
                    text_row(lines[r])
                } else {
                    blank_row()
                },
        ),
        row: k,
        col: 0,
        ..s
    }
}

proof fn lemma_first_lines(s: ScreenState, lines: Seq<Seq<u8>>, k: int)
    requires
        s.wf(),
        s.grid == blank_grid(),
        s.row == 0,
        s.col == 0,
        0 <= k <= BUFFER_HEIGHT,
        k <= lines.len(),
        forall|i: int| 0 <= i < lines.len() ==> fits_row(#[trigger] lines[i]),
    ensures
        s.write_bytes(joined(lines.take(k))) == first_lines(s, lines, k),
    decreases k,
{
    if k == 0 {
        assert(lines.take(0) =~= Seq::<Seq<u8>>::empty());
        assert(first_lines(s, lines, 0).grid =~= s.grid);
    } else {
        lemma_first_lines(s, lines, k - 1);
        let prev = first_lines(s, lines, k - 1);
        assert(lines.take(k).drop_last() =~= lines.take(k - 1));
        assert(lines.take(k).last() == lines[k - 1]);
        lemma_write_bytes_concat(s, joined(lines.take(k - 1)), lines[k - 1] + seq![0x0au8]);
        assert(joined(lines.take(k)) =~= joined(lines.take(k - 1)) + (lines[k - 1] + seq![
            0x0au8,
        ]));
        lemma_line(prev, lines[k - 1]);
        assert(prev.grid.update(k - 1, text_row(lines[k - 1])) =~= first_lines(s, lines, k).grid);
    }
}

/// Writing height + 1 lines to a blank screen, each shorter than a row and
/// the last one not empty, scrolls the first line off: the grid holds the
/// last height lines, top row first, one per row.
pub proof fn lemma_scroll_keeps_last_lines(s: ScreenState, lines: Seq<Seq<u8>>)
    requires
        s.wf(),
        s.grid == blank_grid(),
        s.row == 0,
        s.col == 0,
        lines.len() == BUFFER_HEIGHT + 1,
        forall|i: int| 0 <= i < lines.len() ==> fits_row(#[trigger] lines[i]),
        lines[BUFFER_HEIGHT as int].len() > 0,
    ensures
        ({
            let t = s.write_bytes(joined(lines));
            forall|r: int| 0 <= r < BUFFER_HEIGHT ==> #[trigger] t.grid[r] == text_row(lines[r + 1])
        }),
{
    let h = BUFFER_HEIGHT as int;
    lemma_first_lines(s, lines, h);
    let full = first_lines(s, lines, h);
    assert(lines.take(h + 1) =~= lines);
    assert(lines.take(h + 1).drop_last() =~= lines.take(h));
    lemma_write_bytes_concat(s, joined(lines.take(h)), lines[h] + seq![0x0au8]);
    assert(joined(lines) =~= joined(lines.take(h)) + (lines[h] + seq![0x0au8]));
    lemma_line(full, lines[h]);
    let t = s.write_bytes(joined(lines));
    assert forall|r: int| 0 <= r < BUFFER_HEIGHT implies #[trigger] t.grid[r] == text_row(
        lines[r + 1],
    ) by {
        if r < h - 1 {
            assert(scrolled(full.grid)[r] == full.grid[r + 1]);
        }
    }
}

} // verus!
