//! The character grid and the writer that fills it.
use vstd::prelude::*;
use vstd::string::StringSliceAdditionalSpecFns;

use crate::color::{encode, Color, ColorCode};

verus! {

/// Rows in the grid.
pub const BUFFER_HEIGHT: usize = 25;

/// Columns in the grid.
pub const BUFFER_WIDTH: usize = 80;

/// The line-feed byte.
pub const NEWLINE: u8 = 0x0a;

/// The solid-block glyph written in place of a byte that cannot be shown.
pub const SENTINEL: u8 = 0xfe;

/// One on-screen position: the character byte, then its attribute byte.
#[derive(Debug, Clone, Copy, PartialEq, Eq, Structural)]
pub struct ScreenChar {
    pub ascii_character: u8,
    pub color_code: ColorCode,
}

/// The full grid, row by row; `to_bytes` gives it in the display
/// hardware's byte layout.
#[derive(Clone, Copy)]
pub struct Buffer {
    pub chars: [[ScreenChar; BUFFER_WIDTH]; BUFFER_HEIGHT],
}

impl View for Buffer {
    type V = Seq<Seq<ScreenChar>>;

    open spec fn view(&self) -> Seq<Seq<ScreenChar>> {
        Seq::new(BUFFER_HEIGHT as nat, |r: int| self.chars@[r]@)
    }
}

/// A grid of the fixed shape: 25 rows of 80 cells.
pub open spec fn is_grid(g: Seq<Seq<ScreenChar>>) -> bool {
    &&& g.len() == BUFFER_HEIGHT
    &&& forall|r: int| 0 <= r < BUFFER_HEIGHT ==> #[trigger] g[r].len() == BUFFER_WIDTH
}

/// The byte that the string path hands on for `b`: printable ASCII and the
/// line feed pass unchanged, anything else becomes the sentinel glyph.
pub open spec fn displayable(b: u8) -> u8 {
    if is_printable(b) || b == NEWLINE {
        b
    } else {
        SENTINEL
    }
}

/// Printable ASCII: space through tilde.
pub open spec fn is_printable(b: u8) -> bool {
    0x20 <= b && b <= 0x7e
}

/// What a writer is, as a mathematical value: its column, its attribute
/// byte and the contents of its grid.
pub struct WriterState {
    pub column: nat,
    pub attribute: ColorCode,
    pub grid: Seq<Seq<ScreenChar>>,
}

impl WriterState {
    /// The column never passes the row's end, and the grid has its fixed shape.
    pub open spec fn wf(self) -> bool {
        &&& self.column <= BUFFER_WIDTH
        &&& is_grid(self.grid)
    }

    /// The cell that shows `b` in this writer's colors.
    pub open spec fn cell(self, b: u8) -> ScreenChar {
        ScreenChar { ascii_character: b, color_code: self.attribute }
    }

    /// A row of blank cells in this writer's colors.
    pub open spec fn blank_row(self) -> Seq<ScreenChar> {
        Seq::new(BUFFER_WIDTH as nat, |c: int| self.cell(0x20))
    }

    /// Line advance: every row moves up by one, the top row is lost, the
    /// bottom row is blank and the column is back at 0.
    pub open spec fn advance(self) -> WriterState {
        WriterState {
            column: 0,
            grid: self.grid.subrange(1, self.grid.len() as int).push(self.blank_row()),
            ..self
        }
    }

    /// Writing one byte: a line feed advances; any other byte advances
    /// first if the row is full, then lands at the column on the bottom row.
    pub open spec fn put(self, b: u8) -> WriterState {
        if b == NEWLINE {
            self.advance()
        } else {
            let s = if self.column >= BUFFER_WIDTH { self.advance() } else { self };
            let last = BUFFER_HEIGHT - 1;
            WriterState {
                column: s.column + 1,
                grid: s.grid.update(last, s.grid[last].update(s.column as int, s.cell(b))),
                ..s
            }
        }
    }

    /// Writing the bytes in order.
    pub open spec fn put_all(self, bytes: Seq<u8>) -> WriterState
        decreases bytes.len(),
    {
        if bytes.len() == 0 {
            self
        } else {
            self.put_all(bytes.drop_last()).put(bytes.last())
        }
    }
}

/// The bytes that the string path writes for `bytes`.
pub open spec fn displayed(bytes: Seq<u8>) -> Seq<u8> {
    bytes.map_values(|b: u8| displayable(b))
}

/// Holds the current column and colors, and the grid it writes into.
pub struct Writer {
    column_position: usize,
    color_code: ColorCode,
    buffer: Buffer,
}

impl View for Writer {
    type V = WriterState;

    closed spec fn view(&self) -> WriterState {
        WriterState {
            column: self.column_position as nat,
            attribute: self.color_code,
            grid: self.buffer@,
        }
    }
}

impl Writer {
    /// A writer at column 0 with the given colors, writing into `buffer`.
    pub fn new(color_code: ColorCode, buffer: Buffer) -> (r: Writer)
        ensures
            r@ == (WriterState { column: 0, attribute: color_code, grid: buffer@ }),
            r@.wf(),
    {
        Writer { column_position: 0, color_code, buffer }
    }

    /// The column where the next byte lands.
    pub fn column_position(&self) -> (r: usize)
        ensures
            r == self@.column,
    {
        self.column_position
    }

    /// The attribute byte given to every cell this writer writes.
    pub fn color_code(&self) -> (r: ColorCode)
        ensures
            r == self@.attribute,
    {
        self.color_code
    }

    /// The grid this writer writes into.
    pub fn buffer(&self) -> (r: &Buffer)
        ensures
            r@ == self@.grid,
    {
        &self.buffer
    }

    /// Writes one byte at the current position; a line feed, or a byte that
    /// finds the row full, advances the line first.
    pub fn write_byte(&mut self, byte: u8)
        requires
            old(self)@.wf(),
        ensures
            final(self)@ == old(self)@.put(byte),
            final(self)@.wf(),
    {
        if byte == NEWLINE {
            self.new_line();
        } else {
            if self.column_position >= BUFFER_WIDTH {
                self.new_line();
            }
            let row: usize = BUFFER_HEIGHT - 1;
            let col: usize = self.column_position;
            let color_code = self.color_code;
            self.buffer.chars[row][col] = ScreenChar { ascii_character: byte, color_code };
            self.column_position = self.column_position + 1;
            assert(self@.grid =~= old(self)@.put(byte).grid);
        }
    }

    /// Moves every row up by one, blanks the bottom row and returns to
    /// column 0.
    fn new_line(&mut self)
        requires
            old(self)@.wf(),
        ensures
            final(self)@ == old(self)@.advance(),
            final(self)@.wf(),
    {
        let mut r: usize = 0;
        while r < BUFFER_HEIGHT - 1
            invariant
                r <= BUFFER_HEIGHT - 1,
                self.color_code == old(self).color_code,
                self.column_position == old(self).column_position,
                forall|k: int| 0 <= k < r ==> self.buffer.chars@[k] == old(self).buffer.chars@[k + 1],
                forall|k: int| r <= k < BUFFER_HEIGHT ==> self.buffer.chars@[k] == old(self).buffer.chars@[k],
            decreases BUFFER_HEIGHT - 1 - r,
        {
            self.buffer.chars[r] = self.buffer.chars[r + 1];
            r = r + 1;
        }
        let blank = ScreenChar { ascii_character: 0x20, color_code: self.color_code };
        self.buffer.chars[BUFFER_HEIGHT - 1] = [blank; BUFFER_WIDTH];
        self.column_position = 0;
        assert(self.buffer.chars@[BUFFER_HEIGHT - 1]@ =~= old(self)@.blank_row());
        assert forall|k: int| 0 <= k < BUFFER_HEIGHT - 1 implies #[trigger] self@.grid[k]
            == old(self)@.grid[k + 1] by {
            assert(self.buffer.chars@[k] == old(self).buffer.chars@[k + 1]);
        }
        assert(self@.grid =~= old(self)@.advance().grid);
    }

    /// Writes the bytes of `s` in order. Printable ASCII and line feeds are
    /// written as they are; every other byte, each byte of a multi-byte
    /// character included, is written as the sentinel glyph.
    pub fn write_string(&mut self, s: &str)
        requires
            old(self)@.wf(),
        ensures
            final(self)@ == old(self)@.put_all(displayed(s.spec_bytes())),
            final(self)@.wf(),
    {
        let bytes: &[u8] = s.as_bytes();
        let mut i: usize = 0;
        while i < bytes.len()
            invariant
                bytes@ == s.spec_bytes(),
                i <= bytes@.len(),
                self@.wf(),
                self@ == old(self)@.put_all(displayed(bytes@.subrange(0, i as int))),
            decreases bytes@.len() - i,
        {
            let byte: u8 = bytes[i];
            if (0x20 <= byte && byte <= 0x7e) || byte == NEWLINE {
                self.write_byte(byte);
            } else {
                self.write_byte(SENTINEL);
            }
            proof {
                let pre = displayed(bytes@.subrange(0, i as int));
                let next = displayed(bytes@.subrange(0, i + 1));
                assert(next.drop_last() =~= pre);
            }
            i = i + 1;
        }
        assert(bytes@.subrange(0, i as int) =~= bytes@);
    }
}

/// The grid after the direct path writes `message` with `attribute`: byte
/// `i` of the message lands in cell `i` counted row by row from the top
/// left; other cells keep what they held.
pub open spec fn direct_written(
    grid: Seq<Seq<ScreenChar>>,
    message: Seq<u8>,
    attribute: ColorCode,
) -> Seq<Seq<ScreenChar>> {
    Seq::new(
        grid.len(),
        |r: int|
            Seq::new(
                grid[r].len(),
                |c: int|
                    if r * BUFFER_WIDTH + c < message.len() {
                        ScreenChar { ascii_character: message[r * BUFFER_WIDTH + c], color_code: attribute }
                    } else {
                        grid[r][c]
                    },
            ),
    )
}

/// The grid as the display hardware reads it: cells row by row from the top
/// left, two bytes each, the character byte first and the attribute byte
/// second.
pub open spec fn hardware_bytes(grid: Seq<Seq<ScreenChar>>) -> Seq<u8> {
    Seq::new(
        (2 * BUFFER_WIDTH * BUFFER_HEIGHT) as nat,
        |j: int|
            {
                let cell = grid[(j / 2) / BUFFER_WIDTH as int][(j / 2) % BUFFER_WIDTH as int];
                if j % 2 == 0 {
                    cell.ascii_character
                } else {
                    cell.color_code.0
                }
            },
    )
}

impl Buffer {
    /// A grid whose every cell is `cell`.
    pub fn filled(cell: ScreenChar) -> (r: Buffer)
        ensures
            forall|row: int, col: int|
                0 <= row < BUFFER_HEIGHT && 0 <= col < BUFFER_WIDTH ==> #[trigger] r@[row][col] == cell,
    {
        let line: [ScreenChar; BUFFER_WIDTH] = [cell; BUFFER_WIDTH];
        let r = Buffer { chars: [line; BUFFER_HEIGHT] };
        assert forall|row: int, col: int|
            0 <= row < BUFFER_HEIGHT && 0 <= col < BUFFER_WIDTH implies #[trigger] r@[row][col] == cell by {
            assert(r.chars@[row] == line);
        }
        r
    }

    /// The cell at `row`, `col`.
    pub fn cell(&self, row: usize, col: usize) -> (r: ScreenChar)
        requires
            row < BUFFER_HEIGHT,
            col < BUFFER_WIDTH,
        ensures
            r == self@[row as int][col as int],
    {
        self.chars[row][col]
    }

    /// The grid in the byte layout of the display hardware.
    pub fn to_bytes(&self) -> (r: Vec<u8>)
        ensures
            r@ == hardware_bytes(self@),
    {
        let mut out: Vec<u8> = Vec::new();
        let mut i: usize = 0;
        while i < BUFFER_WIDTH * BUFFER_HEIGHT
            invariant
                i <= BUFFER_WIDTH * BUFFER_HEIGHT,
                out@.len() == 2 * i,
                forall|j: int| 0 <= j < 2 * i ==> #[trigger] out@[j] == hardware_bytes(self@)[j],
            decreases BUFFER_WIDTH * BUFFER_HEIGHT - i,
        {
            let cell = self.chars[i / BUFFER_WIDTH][i % BUFFER_WIDTH];
            out.push(cell.ascii_character);
            out.push(cell.color_code.0);
            proof {
                assert((2 * i) / 2 == i && (2 * i + 1) / 2 == i);
                assert((2 * i) % 2 == 0 && (2 * i + 1) % 2 == 1);
            }
            i = i + 1;
        }
        assert(out@ =~= hardware_bytes(self@));
        out
    }

    /// Writes `message` with `attribute` straight into the grid from the top
    /// left, row by row, without a writer: the path used before any writer
    /// exists.
    pub fn write_direct(&mut self, message: &[u8], attribute: ColorCode)
        requires
            message@.len() <= BUFFER_WIDTH * BUFFER_HEIGHT,
        ensures
            final(self)@ == direct_written(old(self)@, message@, attribute),
    {
        let mut i: usize = 0;
        while i < message.len()
            invariant
                i <= message@.len(),
                message@.len() <= BUFFER_WIDTH * BUFFER_HEIGHT,
                forall|r: int, c: int|
                    0 <= r < BUFFER_HEIGHT && 0 <= c < BUFFER_WIDTH ==> #[trigger] self@[r][c] == if r
                        * BUFFER_WIDTH + c < i {
                        ScreenChar { ascii_character: message@[r * BUFFER_WIDTH + c], color_code: attribute }
                    } else {
                        old(self)@[r][c]
                    },
            decreases message@.len() - i,
        {
            let row: usize = i / BUFFER_WIDTH;
            let col: usize = i % BUFFER_WIDTH;
            let ghost before = self@;
            self.chars[row][col] = ScreenChar { ascii_character: message[i], color_code: attribute };
            assert forall|r: int, c: int|
                0 <= r < BUFFER_HEIGHT && 0 <= c < BUFFER_WIDTH implies #[trigger] self@[r][c] == if r
                    * BUFFER_WIDTH + c < i + 1 {
                    ScreenChar { ascii_character: message@[r * BUFFER_WIDTH + c], color_code: attribute }
                } else {
                    old(self)@[r][c]
                } by {
                if r != row || c != col {
                    assert(self@[r][c] == before[r][c]);
                    assert(r * BUFFER_WIDTH + c != i);
                }
            }
            i = i + 1;
        }
        let ghost expected = direct_written(old(self)@, message@, attribute);
        assert forall|r: int| 0 <= r < BUFFER_HEIGHT implies #[trigger] self@[r] =~= expected[r] by {
            assert forall|c: int| 0 <= c < BUFFER_WIDTH implies #[trigger] self@[r][c] == expected[r][c] by {
                assert(self@[r][c] == expected[r][c]);
            }
        }
        assert(self@ =~= expected);
    }
}

/// Writes the greeting through a writer in yellow on black, on the bottom
/// row of `buffer`, starting at column 0.
pub fn print_something(buffer: &mut Buffer)
    ensures
        final(buffer)@ == (WriterState {
            column: 0,
            attribute: ColorCode(encode(Color::Yellow, Color::Black)),
            grid: old(buffer)@,
        }).put(0x48u8).put_all(displayed("ello ".spec_bytes())).put_all(
            displayed("W\u{f6}rld!".spec_bytes()),
        ).grid,
{
    let mut writer = Writer::new(ColorCode::new(Color::Yellow, Color::Black), *buffer);
    writer.write_byte(0x48);
    writer.write_string("ello ");
    writer.write_string("W\u{f6}rld!");
    *buffer = writer.buffer;
}

/// Writing keeps a well-formed state well-formed and its colors unchanged.
pub proof fn lemma_put_all_wf(state: WriterState, bytes: Seq<u8>)
    requires
        state.wf(),
    ensures
        state.put_all(bytes).wf(),
        state.put_all(bytes).attribute == state.attribute,
    decreases bytes.len(),
{
    if bytes.len() > 0 {
        lemma_put_all_wf(state, bytes.drop_last());
        let s = state.put_all(bytes.drop_last());
        let a = s.advance();
        assert(a.grid.len() == BUFFER_HEIGHT);
        assert forall|r: int| 0 <= r < BUFFER_HEIGHT implies #[trigger] a.grid[r].len() == BUFFER_WIDTH by {
            if r < BUFFER_HEIGHT - 1 {
                assert(a.grid[r] == s.grid[r + 1]);
            }
        }
    }
}

/// The string path writes printable ASCII and line feeds unchanged.
pub proof fn lemma_displayed_printable(bytes: Seq<u8>)
    requires
        forall|k: int| 0 <= k < bytes.len() ==> is_printable(#[trigger] bytes[k]),
    ensures
        displayed(bytes) == bytes,
{
    assert(displayed(bytes) =~= bytes);
}

/// Printable bytes written from column 0 fill the bottom row from the left,
/// one cell each, and leave the other rows alone.
proof fn lemma_put_all_printable(state: WriterState, bytes: Seq<u8>)
    requires
        state.wf(),
        state.column == 0,
        bytes.len() <= BUFFER_WIDTH,
        forall|k: int| 0 <= k < bytes.len() ==> is_printable(#[trigger] bytes[k]),
    ensures
        state.put_all(bytes).column == bytes.len(),
        forall|k: int|
            0 <= k < bytes.len() ==> #[trigger] state.put_all(bytes).grid[BUFFER_HEIGHT - 1][k]
                == state.cell(bytes[k]),
        forall|r: int| 0 <= r < BUFFER_HEIGHT - 1 ==> #[trigger] state.put_all(bytes).grid[r] == state.grid[r],
    decreases bytes.len(),
{
    lemma_put_all_wf(state, bytes);
    if bytes.len() > 0 {
        let pre = bytes.drop_last();
        lemma_put_all_printable(state, pre);
        lemma_put_all_wf(state, pre);
        assert forall|k: int| 0 <= k < pre.len() implies is_printable(#[trigger] pre[k]) by {
            assert(pre[k] == bytes[k]);
        }
        assert forall|k: int| 0 <= k < bytes.len() implies #[trigger] state.put_all(bytes).grid[
            BUFFER_HEIGHT - 1][k] == state.cell(bytes[k]) by {
            if k < pre.len() {
                assert(pre[k] == bytes[k]);
            }
        }
    }
}

/// A printable string of at most one row, written by a writer at column 0,
/// leaves the column at its length and its bytes, in the writer's colors,
/// in the first cells of the bottom row.
pub proof fn lemma_write_short_line(state: WriterState, bytes: Seq<u8>)
    requires
        state.wf(),
        state.column == 0,
        bytes.len() <= BUFFER_WIDTH,
        forall|k: int| 0 <= k < bytes.len() ==> is_printable(#[trigger] bytes[k]),
    ensures
        state.put_all(displayed(bytes)).column == bytes.len(),
        forall|k: int|
            0 <= k < bytes.len() ==> #[trigger] state.put_all(displayed(bytes)).grid[BUFFER_HEIGHT
                - 1][k] == (ScreenChar { ascii_character: bytes[k], color_code: state.attribute }),
{
    lemma_displayed_printable(bytes);
    lemma_put_all_printable(state, bytes);
}

/// A byte that is neither printable ASCII nor a line feed is shown as the
/// sentinel glyph; unless it is the sentinel byte itself, it is never shown
/// as itself.
pub proof fn lemma_unprintable_shown_as_sentinel(state: WriterState, b: u8)
    requires
        state.wf(),
        !is_printable(b),
        b != NEWLINE,
    ensures
        ({
            let after = state.put_all(displayed(seq![b]));
            &&& after.grid[BUFFER_HEIGHT - 1][after.column - 1].ascii_character == SENTINEL
            &&& b != SENTINEL ==> after.grid[BUFFER_HEIGHT - 1][after.column - 1].ascii_character != b
        }),
{
    let one = seq![b];
    assert(displayed(one) =~= seq![SENTINEL]);
    assert(seq![SENTINEL].drop_last() =~= Seq::<u8>::empty());
    assert(state.put_all(Seq::<u8>::empty()) == state);
    assert(seq![SENTINEL].last() == SENTINEL);
    assert(state.put_all(seq![SENTINEL]) == state.put(SENTINEL));
    lemma_advance_scrolls(state);
    let s = if state.column >= BUFFER_WIDTH { state.advance() } else { state };
    assert(s.grid[BUFFER_HEIGHT - 1].len() == BUFFER_WIDTH);
}

/// Line advance moves the content of each row but the top one up by one
/// row, blanks the bottom row and returns to column 0.
pub proof fn lemma_advance_scrolls(state: WriterState)
    requires
        state.wf(),
    ensures
        state.put(NEWLINE) == state.advance(),
        state.advance().column == 0,
        state.advance().wf(),
        forall|r: int| 1 <= r < BUFFER_HEIGHT ==> #[trigger] state.advance().grid[r - 1] == state.grid[r],
        forall|c: int|
            0 <= c < BUFFER_WIDTH ==> #[trigger] state.advance().grid[BUFFER_HEIGHT - 1][c]
                == state.cell(0x20),
{
    lemma_put_all_wf(state, seq![NEWLINE]);
    assert(seq![NEWLINE].drop_last() =~= Seq::<u8>::empty());
}

/// After a full row of printable bytes from column 0, one more printable
/// byte advances the line first: it lands at column 0 of the new bottom row,
/// the column is 1 after it, and the full row has moved up by one.
pub proof fn lemma_overflow_advances(state: WriterState, bytes: Seq<u8>)
    requires
        state.wf(),
        state.column == 0,
        bytes.len() == BUFFER_WIDTH + 1,
        forall|k: int| 0 <= k < bytes.len() ==> is_printable(#[trigger] bytes[k]),
    ensures
        ({
            let after = state.put_all(displayed(bytes));
            &&& after.column == 1
            &&& after.grid[BUFFER_HEIGHT - 1][0] == state.cell(bytes[BUFFER_WIDTH as int])
            &&& forall|k: int|
                0 <= k < BUFFER_WIDTH ==> #[trigger] after.grid[BUFFER_HEIGHT - 2][k] == state.cell(
                    bytes[k],
                )
        }),
{
    lemma_displayed_printable(bytes);
    let pre = bytes.drop_last();
    assert forall|k: int| 0 <= k < pre.len() implies is_printable(#[trigger] pre[k]) by {
        assert(pre[k] == bytes[k]);
    }
    lemma_put_all_printable(state, pre);
    lemma_put_all_wf(state, pre);
    let full = state.put_all(pre);
    lemma_advance_scrolls(full);
    assert forall|k: int| 0 <= k < BUFFER_WIDTH implies #[trigger] state.put_all(bytes).grid[
        BUFFER_HEIGHT - 2][k] == state.cell(bytes[k]) by {
        assert(full.advance().grid[BUFFER_HEIGHT - 2] == full.grid[BUFFER_HEIGHT - 1]);
        assert(pre[k] == bytes[k]);
    }
}

} // verus!
