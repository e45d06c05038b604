//! The character grid and the writer that fills it.
use vstd::prelude::*;
use vstd::string::StringSliceAdditionalSpecFns;
use volatile::Volatile;

verus! {

/// The sixteen colors of the text mode palette.
#[derive(Debug, Clone, Copy, PartialEq, Eq, Structural)]
pub enum Color {
    Black,
    Blue,
    Green,
    Cyan,
    Red,
    Magenta,
    Brown,
    LightGray,
    DarkGray,
    LightBlue,
    LightGreen,
    LightCyan,
    LightRed,
    Pink,
    Yellow,
    White,
}

impl Color {
    /// The 4-bit hardware number of the color.
    pub open spec fn spec_value(self) -> u8 {
        match self {
            Color::Black => 0,
            Color::Blue => 1,
            Color::Green => 2,
            Color::Cyan => 3,
            Color::Red => 4,
            Color::Magenta => 5,
            Color::Brown => 6,
            Color::LightGray => 7,
            Color::DarkGray => 8,
            Color::LightBlue => 9,
            Color::LightGreen => 10,
            Color::LightCyan => 11,
            Color::LightRed => 12,
            Color::Pink => 13,
            Color::Yellow => 14,
            Color::White => 15,
        }
    }

    pub fn value(self) -> (r: u8)
        ensures
            r == self.spec_value(),
            r < 16,
    {
        match self {
            Color::Black => 0,
            Color::Blue => 1,
            Color::Green => 2,
            Color::Cyan => 3,
            Color::Red => 4,
            Color::Magenta => 5,
            Color::Brown => 6,
            Color::LightGray => 7,
            Color::DarkGray => 8,
            Color::LightBlue => 9,
            Color::LightGreen => 10,
            Color::LightCyan => 11,
            Color::LightRed => 12,
            Color::Pink => 13,
            Color::Yellow => 14,
            Color::White => 15,
        }
    }
}

/// A packed attribute byte: background in the high nibble, foreground in
/// the low one.
#[derive(Debug, Clone, Copy, PartialEq, Eq, Structural)]
pub struct ColorCode(pub u8);

/// The attribute byte of a foreground and background pair.
pub open spec fn packed(foreground: Color, background: Color) -> u8 {
    ((background.spec_value() << 4u8) | foreground.spec_value()) as u8
}

impl ColorCode {
    pub fn new(foreground: Color, background: Color) -> (r: ColorCode)
        ensures
            r.0 == packed(foreground, background),
            r.0 == 16 * background.spec_value() + foreground.spec_value(),
    {
        let f = foreground.value();
        let b = background.value();
        proof {
            assert((b << 4u8) | f == 16 * b + f) by (bit_vector)
                requires
                    b < 16u8,
                    f < 16u8,
            ;
        }
        ColorCode((b << 4u8) | f)
    }
}

/// One displayed character: the character code, then its attribute byte.
#[derive(Debug, Clone, Copy, PartialEq, Eq, Structural)]
pub struct ScreenChar {
    pub ascii_character: u8,
    pub color_code: ColorCode,
}

/// Number of rows of the grid.
pub const BUFFER_HEIGHT: usize = 25;

/// Number of columns of the grid.
pub const BUFFER_WIDTH: usize = 80;

/// Number of cells of the grid, stored row after row.
pub const BUFFER_CELLS: usize = 2000;

/// Index of the first cell of the bottom row, where all writing happens.
pub const LAST_ROW_START: usize = 1920;

/// The character code written for a byte that cannot be shown.
pub const PLACEHOLDER: u8 = 0xfe;

/// A cell of memory that is only read and written by volatile accesses.
#[verifier::external_type_specification]
#[verifier::external_body]
#[verifier::reject_recursive_types(T)]
pub struct ExVolatile<T: Copy>(Volatile<T>);

/// What a volatile cell of the grid holds.
pub uninterp spec fn stored_cell(v: Volatile<ScreenChar>) -> ScreenChar;

/// Relies on `Volatile::new`: the new cell holds the value given.
#[verifier::external_body]
fn new_cell(c: ScreenChar) -> (r: Volatile<ScreenChar>)
    ensures
        stored_cell(r) == c,
{
    Volatile::new(c)
}

/// Relies on `Volatile::read`: a volatile load of the value the cell holds.
#[verifier::external_body]
fn read_cell(v: &Volatile<ScreenChar>) -> (r: ScreenChar)
    ensures
        r == stored_cell(*v),
{
    v.read()
}

/// Relies on `Volatile::write`: a volatile store into cell `i`; the other
/// cells are not touched.
#[verifier::external_body]
fn write_cell(cells: &mut Vec<Volatile<ScreenChar>>, i: usize, c: ScreenChar)
    requires
        i < old(cells).len(),
    ensures
        final(cells).len() == old(cells).len(),
        stored_cell(final(cells)[i as int]) == c,
        forall|j: int| 0 <= j < old(cells).len() && j != i ==> final(cells)[j] == old(cells)[j],
{
    cells[i].write(c)
}

/// A blank cell carrying the given attribute.
pub open spec fn blank(color: ColorCode) -> ScreenChar {
    ScreenChar { ascii_character: 32, color_code: color }
}

/// The code that reaches the grid for a byte of text: printable ASCII and
/// the newline pass unchanged, anything else becomes the placeholder.
pub open spec fn displayed(b: u8) -> u8 {
    if (0x20 <= b && b <= 0x7e) || b == 10 {
        b
    } else {
        PLACEHOLDER
    }
}

/// The grid after a scroll: every row moves up by one, the top row is lost
/// and the bottom row is blank.
pub open spec fn scrolled(cells: Seq<ScreenChar>, color: ColorCode) -> Seq<ScreenChar> {
    Seq::new(
        BUFFER_CELLS as nat,
        |i: int|
            if i < LAST_ROW_START {
                cells[i + BUFFER_WIDTH]
            } else {
                blank(color)
            },
    )
}

/// Grid and column after one byte is written.
pub open spec fn byte_written(cells: Seq<ScreenChar>, column: nat, color: ColorCode, b: u8) -> (
    Seq<ScreenChar>,
    nat,
) {
    if b == 10 {
        (scrolled(cells, color), 0)
    } else if column >= BUFFER_WIDTH {
        (
            scrolled(cells, color).update(
                LAST_ROW_START as int,
                ScreenChar { ascii_character: b, color_code: color },
            ),
            1,
        )
    } else {
        (
            cells.update(
                LAST_ROW_START + column,
                ScreenChar { ascii_character: b, color_code: color },
            ),
            column + 1,
        )
    }
}

/// Grid and column after a sequence of bytes of text is written, each one
/// first passed through `displayed`.
pub open spec fn text_written(cells: Seq<ScreenChar>, column: nat, color: ColorCode, bs: Seq<u8>) -> (
    Seq<ScreenChar>,
    nat,
)
    decreases bs.len(),
{
    if bs.len() == 0 {
        (cells, column)
    } else {
        let before = text_written(cells, column, color, bs.drop_last());
        byte_written(before.0, before.1, color, displayed(bs.last()))
    }
}

struct Buffer {
    chars: Vec<Volatile<ScreenChar>>,
}

/// Writes text to the bottom row of the grid, wrapping and scrolling.
pub struct Writer {
    column_position: usize,
    color_code: ColorCode,
    buffer: Buffer,
}

impl Writer {
    /// The cells of the grid, row after row.
    pub closed spec fn cells(&self) -> Seq<ScreenChar> {
        self.buffer.chars@.map_values(|v: Volatile<ScreenChar>| stored_cell(v))
    }

    /// The column of the bottom row that the next byte goes to.
    pub closed spec fn column(&self) -> nat {
        self.column_position as nat
    }

    /// The attribute that written cells get.
    pub closed spec fn color(&self) -> ColorCode {
        self.color_code
    }

    /// The grid has all its cells and the column lies within a row.
    pub open spec fn wf(&self) -> bool {
        self.cells().len() == BUFFER_CELLS && self.column() <= BUFFER_WIDTH
    }

    /// A writer over a blank grid, at column 0.
    pub fn new(color_code: ColorCode) -> (r: Writer)
        ensures
            r.wf(),
            r.column() == 0,
            r.color() == color_code,
            r.cells() == Seq::new(BUFFER_CELLS as nat, |i: int| blank(color_code)),
    {
        let mut chars: Vec<Volatile<ScreenChar>> = Vec::new();
        let mut i: usize = 0;
        while i < BUFFER_CELLS
            invariant
                i <= BUFFER_CELLS,
                chars.len() == i,
                forall|j: int| 0 <= j < i ==> stored_cell(#[trigger] chars[j]) == blank(color_code),
            decreases BUFFER_CELLS - i,
        {
            chars.push(new_cell(ScreenChar { ascii_character: 32u8, color_code }));
            i = i + 1;
        }
        let r = Writer { column_position: 0, color_code, buffer: Buffer { chars } };
        assert(r.cells() =~= Seq::new(BUFFER_CELLS as nat, |i: int| blank(color_code)));
        r
    }

    /// Whether the grid has all its cells and the column lies within a row.
    pub fn is_wf(&self) -> (r: bool)
        ensures
            r == self.wf(),
    {
        self.buffer.chars.len() == BUFFER_CELLS && self.column_position <= BUFFER_WIDTH
    }

    /// The column of the bottom row that the next byte goes to.
    pub fn column_position(&self) -> (r: usize)
        ensures
            r == self.column(),
    {
        self.column_position
    }

    /// The attribute that written cells get.
    pub fn color_code(&self) -> (r: ColorCode)
        ensures
            r == self.color(),
    {
        self.color_code
    }

    /// The cell at `row`, `col`.
    pub fn read_char(&self, row: usize, col: usize) -> (r: ScreenChar)
        requires
            self.wf(),
            row < BUFFER_HEIGHT,
            col < BUFFER_WIDTH,
        ensures
            r == self.cells()[row * BUFFER_WIDTH + col],
    {
        read_cell(&self.buffer.chars[row * BUFFER_WIDTH + col])
    }

    /// Stores `c` into cell `i` of the grid.
    fn set_char(&mut self, i: usize, c: ScreenChar)
        requires
            old(self).wf(),
            i < BUFFER_CELLS,
        ensures
            final(self).wf(),
            final(self).column() == old(self).column(),
            final(self).color() == old(self).color(),
            final(self).cells() == old(self).cells().update(i as int, c),
    {
        write_cell(&mut self.buffer.chars, i, c);
        assert(self.cells() =~= old(self).cells().update(i as int, c));
    }

    /// Fills row `row` with blanks carrying the current attribute.
    pub fn clear_row(&mut self, row: usize)
        requires
            old(self).wf(),
            row < BUFFER_HEIGHT,
        ensures
            final(self).wf(),
            final(self).column() == old(self).column(),
            final(self).color() == old(self).color(),
            forall|i: int|
                0 <= i < BUFFER_CELLS ==> #[trigger] final(self).cells()[i] == if row
                    * BUFFER_WIDTH <= i < row * BUFFER_WIDTH + BUFFER_WIDTH {
                    blank(old(self).color())
                } else {
                    old(self).cells()[i]
                },
    {
        let blank = ScreenChar { ascii_character: 32u8, color_code: self.color_code };
        let start = row * BUFFER_WIDTH;
        let mut col: usize = 0;
        while col < BUFFER_WIDTH
            invariant
                self.wf(),
                col <= BUFFER_WIDTH,
                start == row * BUFFER_WIDTH,
                row < BUFFER_HEIGHT,
                self.column() == old(self).column(),
                self.color() == old(self).color(),
                blank == crate::vga_buffer::blank(self.color()),
                forall|i: int|
                    0 <= i < BUFFER_CELLS ==> #[trigger] self.cells()[i] == if start <= i < start
                        + col {
                        blank
                    } else {
                        old(self).cells()[i]
                    },
            decreases BUFFER_WIDTH - col,
        {
            self.set_char(start + col, blank);
            col = col + 1;
        }
    }

    /// Moves every row up by one, dropping the top row, blanks the bottom
    /// row and returns to column 0.
    pub fn new_line(&mut self)
        requires
            old(self).wf(),
        ensures
            final(self).wf(),
            final(self).column() == 0,
            final(self).color() == old(self).color(),
            final(self).cells() == scrolled(old(self).cells(), old(self).color()),
    {
        let mut i: usize = BUFFER_WIDTH;
        while i < BUFFER_CELLS
            invariant
                self.wf(),
                BUFFER_WIDTH <= i <= BUFFER_CELLS,
                self.column() == old(self).column(),
                self.color() == old(self).color(),
                forall|j: int|
                    0 <= j < BUFFER_CELLS ==> #[trigger] self.cells()[j] == if j < i
                        - BUFFER_WIDTH {
                        old(self).cells()[j + BUFFER_WIDTH]
                    } else {
                        old(self).cells()[j]
                    },
            decreases BUFFER_CELLS - i,
        {
            let character = read_cell(&self.buffer.chars[i]);
            assert(character == self.cells()[i as int]);
            self.set_char(i - BUFFER_WIDTH, character);
            i = i + 1;
        }
        self.clear_row(BUFFER_HEIGHT - 1);
        self.column_position = 0;
        assert(self.cells() =~= scrolled(old(self).cells(), old(self).color()));
    }

    /// Writes one byte: a newline moves to a fresh bottom row; any other
    /// byte goes to the current column, after a line break when the row is
    /// full.
    pub fn write_byte(&mut self, byte: u8)
        requires
            old(self).wf(),
        ensures
            final(self).wf(),
            final(self).color() == old(self).color(),
            (final(self).cells(), final(self).column()) == byte_written(
                old(self).cells(),
                old(self).column(),
                old(self).color(),
                byte,
            ),
    {
        if byte == 10u8 {
            self.new_line();
        } else {
            if self.column_position >= BUFFER_WIDTH {
                self.new_line();
            }
            let col = self.column_position;
            let color_code = self.color_code;
            self.set_char(LAST_ROW_START + col, ScreenChar { ascii_character: byte, color_code });
            self.column_position = col + 1;
        }
    }

    /// Writes the bytes of `s` in order; a byte that is neither printable
    /// ASCII nor a newline is written as the placeholder.
    pub fn write_string(&mut self, s: &str)
        requires
            old(self).wf(),
        ensures
            final(self).wf(),
            final(self).color() == old(self).color(),
            (final(self).cells(), final(self).column()) == text_written(
                old(self).cells(),
                old(self).column(),
                old(self).color(),
                s.spec_bytes(),
            ),
    {
        let bytes = s.as_bytes();
        let mut i: usize = 0;
        while i < bytes.len()
            invariant
                self.wf(),
                i <= bytes@.len(),
                bytes@ == s.spec_bytes(),
                self.color() == old(self).color(),
                (self.cells(), self.column()) == text_written(
                    old(self).cells(),
                    old(self).column(),
                    old(self).color(),
                    bytes@.take(i as int),
                ),
            decreases bytes@.len() - i,
        {
            let byte = bytes[i];
            let shown = if (0x20u8 <= byte && byte <= 0x7eu8) || byte == 10u8 {
                byte
            } else {
                PLACEHOLDER
            };
            self.write_byte(shown);
            assert(bytes@.take(i + 1).drop_last() =~= bytes@.take(i as int));
            i = i + 1;
        }
        assert(bytes@.take(i as int) =~= bytes@);
    }
}

/// Writes already formatted text to the console; the caller holds the
/// writer exclusively for the whole call.
pub fn _print(writer: &mut Writer, text: &str)
    requires
        old(writer).wf(),
    ensures
        final(writer).wf(),
        final(writer).color() == old(writer).color(),
        (final(writer).cells(), final(writer).column()) == text_written(
            old(writer).cells(),
            old(writer).column(),
            old(writer).color(),
            text.spec_bytes(),
        ),
{
    writer.write_string(text);
}

/// Every byte of `bs` is printable ASCII.
pub open spec fn printable(bs: Seq<u8>) -> bool {
    forall|i: int| 0 <= i < bs.len() ==> 0x20 <= #[trigger] bs[i] && bs[i] <= 0x7e
}

/// Printable text that fits in the rest of the bottom row reads back from
/// that row as written, each byte with the current attribute, starting at
/// the column; the column moves past it and no other cell changes.
pub proof fn lemma_line_reads_back(
    cells: Seq<ScreenChar>,
    column: nat,
    color: ColorCode,
    bs: Seq<u8>,
)
    requires
        cells.len() == BUFFER_CELLS,
        column + bs.len() <= BUFFER_WIDTH,
        printable(bs),
    ensures
        text_written(cells, column, color, bs).1 == column + bs.len(),
        text_written(cells, column, color, bs).0.len() == BUFFER_CELLS,
        forall|k: int|
            0 <= k < bs.len() ==> #[trigger] text_written(cells, column, color, bs).0[LAST_ROW_START
                + column + k] == (ScreenChar { ascii_character: bs[k], color_code: color }),
        forall|i: int|
            0 <= i < BUFFER_CELLS && !(LAST_ROW_START + column <= i < LAST_ROW_START + column
                + bs.len()) ==> #[trigger] text_written(cells, column, color, bs).0[i] == cells[i],
    decreases bs.len(),
{
    if bs.len() > 0 {
        let front = bs.drop_last();
        assert(printable(front)) by {
            assert forall|i: int| 0 <= i < front.len() implies 0x20 <= #[trigger] front[i]
                && front[i] <= 0x7e by {
                assert(front[i] == bs[i]);
            }
        }
        lemma_line_reads_back(cells, column, color, front);
        let last = bs.last();
        assert(0x20 <= bs[bs.len() - 1] && bs[bs.len() - 1] <= 0x7e);
        assert(displayed(last) == last);
    }
}

/// Writing one more printable character than a row holds, from column 0,
/// scrolls exactly once: every earlier row moves up by one and the old top
/// row is gone, the row above the bottom holds the first `BUFFER_WIDTH`
/// characters, and the bottom row holds the last character followed by
/// blanks in the current attribute.
pub proof fn lemma_overfull_line_scrolls_once(cells: Seq<ScreenChar>, color: ColorCode, bs: Seq<u8>)
    requires
        cells.len() == BUFFER_CELLS,
        bs.len() == BUFFER_WIDTH + 1,
        printable(bs),
    ensures
        text_written(cells, 0, color, bs).1 == 1,
        text_written(cells, 0, color, bs).0.len() == BUFFER_CELLS,
        forall|i: int|
            0 <= i < LAST_ROW_START - BUFFER_WIDTH ==> #[trigger] text_written(
                cells,
                0,
                color,
                bs,
            ).0[i] == cells[i + BUFFER_WIDTH],
        forall|k: int|
            0 <= k < BUFFER_WIDTH ==> #[trigger] text_written(cells, 0, color, bs).0[LAST_ROW_START
                - BUFFER_WIDTH + k] == (ScreenChar { ascii_character: bs[k], color_code: color }),
        text_written(cells, 0, color, bs).0[LAST_ROW_START as int] == (ScreenChar {
            ascii_character: bs[BUFFER_WIDTH as int],
            color_code: color,
        }),
        forall|i: int|
            LAST_ROW_START + 1 <= i < BUFFER_CELLS ==> #[trigger] text_written(
                cells,
                0,
                color,
                bs,
            ).0[i] == blank(color),
{
    let front = bs.drop_last();
    assert(printable(front)) by {
        assert forall|i: int| 0 <= i < front.len() implies 0x20 <= #[trigger] front[i] && front[i]
            <= 0x7e by {
            assert(front[i] == bs[i]);
        }
    }
    lemma_line_reads_back(cells, 0, color, front);
    let mid = text_written(cells, 0, color, front);
    assert(0x20 <= bs[BUFFER_WIDTH as int] && bs[BUFFER_WIDTH as int] <= 0x7e);
    assert(displayed(bs.last()) == bs.last());
    assert forall|k: int| 0 <= k < BUFFER_WIDTH implies #[trigger] text_written(
        cells,
        0,
        color,
        bs,
    ).0[LAST_ROW_START - BUFFER_WIDTH + k] == (ScreenChar {
        ascii_character: bs[k],
        color_code: color,
    }) by {
        assert(mid.0[LAST_ROW_START + 0 + k] == (ScreenChar {
            ascii_character: front[k],
            color_code: color,
        }));
    }
    assert forall|i: int| 0 <= i < LAST_ROW_START - BUFFER_WIDTH implies #[trigger] text_written(
        cells,
        0,
        color,
        bs,
    ).0[i] == cells[i + BUFFER_WIDTH] by {
        assert(mid.0[i + BUFFER_WIDTH] == cells[i + BUFFER_WIDTH]);
    }
}

/// A byte that is neither printable ASCII nor a newline shows as the
/// placeholder, never as itself.
pub proof fn lemma_unprintable_shows_placeholder(
    cells: Seq<ScreenChar>,
    column: nat,
    color: ColorCode,
    b: u8,
)
    requires
        cells.len() == BUFFER_CELLS,
        column < BUFFER_WIDTH,
        !(0x20 <= b && b <= 0x7e),
        b != 10,
    ensures
        text_written(cells, column, color, seq![b]).0[LAST_ROW_START + column] == (ScreenChar {
            ascii_character: PLACEHOLDER,
            color_code: color,
        }),
        text_written(cells, column, color, seq![b]).1 == column + 1,
{
    let bs = seq![b];
    assert(bs.drop_last() =~= Seq::<u8>::empty());
    assert(text_written(cells, column, color, bs.drop_last()) == (cells, column));
    assert(bs.last() == b);
    assert(displayed(b) == PLACEHOLDER);
}

/// Writing `a` then `b` leaves grid and column as writing `a + b` does.
pub proof fn lemma_text_concat(
    cells: Seq<ScreenChar>,
    column: nat,
    color: ColorCode,
    a: Seq<u8>,
    b: Seq<u8>,
)
    ensures
        text_written(cells, column, color, a + b) == text_written(
            text_written(cells, column, color, a).0,
            text_written(cells, column, color, a).1,
            color,
            b,
        ),
    decreases b.len(),
{
    if b.len() == 0 {
        assert(a + b =~= a);
    } else {
        lemma_text_concat(cells, column, color, a, b.drop_last());
        assert((a + b).drop_last() =~= a + b.drop_last());
        assert((a + b).last() == b.last());
    }
}

/// A line of printable text written between two newlines reads back, from
/// any state of the grid, in the row above the bottom: each byte with the
/// current attribute, blanks after it; the bottom row is blank and the
/// column is 0.
pub proof fn lemma_line_reads_back_after_newline(
    cells: Seq<ScreenChar>,
    column: nat,
    color: ColorCode,
    bs: Seq<u8>,
)
    requires
        cells.len() == BUFFER_CELLS,
        bs.len() <= BUFFER_WIDTH,
        printable(bs),
    ensures
        text_written(cells, column, color, seq![10u8] + bs + seq![10u8]).1 == 0,
        forall|k: int|
            0 <= k < bs.len() ==> #[trigger] text_written(
                cells,
                column,
                color,
                seq![10u8] + bs + seq![10u8],
            ).0[LAST_ROW_START - BUFFER_WIDTH + k] == (ScreenChar {
                ascii_character: bs[k],
                color_code: color,
            }),
        forall|k: int|
            bs.len() <= k < BUFFER_WIDTH ==> #[trigger] text_written(
                cells,
                column,
                color,
                seq![10u8] + bs + seq![10u8],
            ).0[LAST_ROW_START - BUFFER_WIDTH + k] == blank(color),
        forall|i: int|
            LAST_ROW_START <= i < BUFFER_CELLS ==> #[trigger] text_written(
                cells,
                column,
                color,
                seq![10u8] + bs + seq![10u8],
            ).0[i] == blank(color),
{
    let nl = seq![10u8];
    assert(nl.drop_last() =~= Seq::<u8>::empty());
    assert(text_written(cells, column, color, nl.drop_last()) == (cells, column));
    assert(displayed(10u8) == 10u8);
    let first = text_written(cells, column, color, nl);
    assert(first == (scrolled(cells, color), 0nat));
    lemma_text_concat(cells, column, color, nl, bs);
    lemma_line_reads_back(first.0, 0, color, bs);
    let second = text_written(cells, column, color, nl + bs);
    lemma_text_concat(cells, column, color, nl + bs, nl);
    assert(text_written(second.0, second.1, color, nl.drop_last()) == (second.0, second.1));
    let last = text_written(cells, column, color, nl + bs + nl);
    assert(last == (scrolled(second.0, color), 0nat));
    assert forall|k: int| 0 <= k < bs.len() implies #[trigger] last.0[LAST_ROW_START
        - BUFFER_WIDTH + k] == (ScreenChar { ascii_character: bs[k], color_code: color }) by {
        assert(second.0[LAST_ROW_START + 0 + k] == (ScreenChar {
            ascii_character: bs[k],
            color_code: color,
        }));
    }
    assert forall|k: int| bs.len() <= k < BUFFER_WIDTH implies #[trigger] last.0[LAST_ROW_START
        - BUFFER_WIDTH + k] == blank(color) by {
        assert(second.0[LAST_ROW_START + k] == first.0[LAST_ROW_START + k]);
    }
}

} // verus!
