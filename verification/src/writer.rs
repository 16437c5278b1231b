use vstd::prelude::*;
use vstd::string::StringSliceAdditionalSpecFns;
use crate::buffer::{blank_row, FrameBuffer, ScreenChar, BUFFER_HEIGHT, BUFFER_WIDTH};
use crate::color::ColorCode;

verus! {

broadcast use crate::buffer::FrameBuffer::lemma_grid_shape;

/// The byte that ends a line.
pub const NEWLINE: u8 = 0x0A;

/// The codepage index of the filled-box glyph shown for unsupported bytes.
pub const SUBSTITUTE: u8 = 0xFE;

/// The grid after a scroll: every row moves up by one, the top row's old
/// content is discarded, and the bottom row is blank.
pub open spec fn spec_scroll(g: Seq<Seq<ScreenChar>>) -> Seq<Seq<ScreenChar>> {
    Seq::new(
        BUFFER_HEIGHT as nat,
        |r: int|
            if r < BUFFER_HEIGHT - 1 {
                g[r + 1]
            } else {
                blank_row()
            },
    )
}

/// The grid with the cell at the given column of the bottom row replaced by
/// the given glyph in the given color.
pub open spec fn spec_place(
    g: Seq<Seq<ScreenChar>>,
    col: int,
    cc: ColorCode,
    byte: u8,
) -> Seq<Seq<ScreenChar>> {
    g.update(
        BUFFER_HEIGHT - 1,
        g[BUFFER_HEIGHT - 1].update(col, ScreenChar { ascii_character: byte, color_code: cc }),
    )
}

/// The grid and cursor column after one byte is written: the newline byte
/// scrolls and returns the cursor to column 0; any other byte lands at the
/// cursor on the bottom row (after a scroll when that row is already full)
/// and advances the cursor by one.
pub open spec fn spec_write_byte(
    g: Seq<Seq<ScreenChar>>,
    col: int,
    cc: ColorCode,
    byte: u8,
) -> (Seq<Seq<ScreenChar>>, int) {
    if byte == NEWLINE {
        (spec_scroll(g), 0)
    } else if col >= BUFFER_WIDTH {
        (spec_place(spec_scroll(g), 0, cc, byte), 1)
    } else {
        (spec_place(g, col, cc, byte), col + 1)
    }
}

/// The byte that actually reaches the grid for a given input byte: the
/// newline byte and printable bytes pass unchanged, every other value is
/// replaced by the substitute glyph.
pub open spec fn spec_substitute(byte: u8) -> u8 {
    if byte == NEWLINE || (0x20 <= byte && byte <= 0x7E) {
        byte
    } else {
        SUBSTITUTE
    }
}

/// The grid and cursor column after a whole byte sequence is written, each
/// byte classified by `spec_substitute` first.
pub open spec fn spec_write_bytes(
    g: Seq<Seq<ScreenChar>>,
    col: int,
    cc: ColorCode,
    bytes: Seq<u8>,
) -> (Seq<Seq<ScreenChar>>, int)
    decreases bytes.len(),
{
    if bytes.len() == 0 {
        (g, col)
    } else {
        let stepped = spec_write_byte(g, col, cc, spec_substitute(bytes[0]));
        spec_write_bytes(stepped.0, stepped.1, cc, bytes.drop_first())
    }
}

/// Converts a byte stream into cell writes on a grid it owns exclusively:
/// direct character placement only ever touches the bottom row, earlier rows
/// change only when a scroll shifts them.
pub struct Writer {
    column_position: usize,
    color_code: ColorCode,
    buffer: FrameBuffer,
}

impl Writer {
    /// The grid this writer draws on.
    pub closed spec fn grid(self) -> Seq<Seq<ScreenChar>> {
        self.buffer.grid()
    }

    /// The cursor column on the bottom row.
    pub closed spec fn col(self) -> int {
        self.column_position as int
    }

    /// The color every written glyph is drawn with.
    pub closed spec fn color(self) -> ColorCode {
        self.color_code
    }

    /// The writer's invariant: the grid storage is complete and the cursor
    /// never passes one place beyond the last column.
    pub closed spec fn wf(self) -> bool {
        &&& self.buffer.wf()
        &&& self.column_position <= BUFFER_WIDTH
    }

    /// Binds a writer to a grid, with the cursor at column 0 and the given
    /// pen color.
    pub fn new(buffer: FrameBuffer, color_code: ColorCode) -> (w: Writer)
        requires
            buffer.wf(),
        ensures
            w.wf(),
            w.col() == 0,
            w.color() == color_code,
            w.grid() == buffer.grid(),
    {
        Writer { column_position: 0, color_code, buffer }
    }

    /// The cursor column, for callers that track layout.
    pub fn column_position(&self) -> (r: usize)
        ensures
            r == self.col(),
    {
        self.column_position
    }

    /// Reads the cell at (row, col) back from the grid.
    pub fn char_at(&self, row: usize, col: usize) -> (r: ScreenChar)
        requires
            self.wf(),
            row < BUFFER_HEIGHT,
            col < BUFFER_WIDTH,
        ensures
            r == self.grid()[row as int][col as int],
    {
        self.buffer.read_cell(row, col)
    }

    /// Shifts every row up by one, clears the bottom row to blanks, and
    /// returns the cursor to column 0.
    pub fn new_line(&mut self)
        requires
            old(self).wf(),
        ensures
            final(self).wf(),
            final(self).color() == old(self).color(),
            final(self).grid() == spec_scroll(old(self).grid()),
            final(self).col() == 0,
    {
        let ghost orig = *self;
        let mut row: usize = 0;
        while row < BUFFER_HEIGHT - 1
            invariant
                self.wf(),
                self.color_code == orig.color_code,
                row <= BUFFER_HEIGHT - 1,
                forall|r: int| 0 <= r < row ==> #[trigger] self.grid()[r] == orig.grid()[r + 1],
                forall|r: int|
                    row <= r < BUFFER_HEIGHT ==> #[trigger] self.grid()[r] == orig.grid()[r],
            decreases BUFFER_HEIGHT - 1 - row,
        {
            let mut col: usize = 0;
            while col < BUFFER_WIDTH
                invariant
                    self.wf(),
                    self.color_code == orig.color_code,
                    row < BUFFER_HEIGHT - 1,
                    col <= BUFFER_WIDTH,
                    forall|r: int| 0 <= r < row ==> #[trigger] self.grid()[r] == orig.grid()[r + 1],
                    forall|r: int|
                        row < r < BUFFER_HEIGHT ==> #[trigger] self.grid()[r] == orig.grid()[r],
                    forall|c: int|
                        0 <= c < col ==> #[trigger] self.grid()[row as int][c] == orig.grid()[row
                            + 1][c],
                    forall|c: int|
                        col <= c < BUFFER_WIDTH ==> #[trigger] self.grid()[row as int][c]
                            == orig.grid()[row as int][c],
                decreases BUFFER_WIDTH - col,
            {
                let ghost pre = *self;
                let ch = self.buffer.read_cell(row + 1, col);
                self.buffer.write_cell(row, col, ch);
                proof {
                    assert(self.grid() == pre.grid().update(
                        row as int,
                        pre.grid()[row as int].update(col as int, ch),
                    ));
                }
                col += 1;
            }
            proof {
                assert(self.grid()[row as int] =~= orig.grid()[row + 1]);
            }
            row += 1;
        }
        let mut col: usize = 0;
        while col < BUFFER_WIDTH
            invariant
                self.wf(),
                self.color_code == orig.color_code,
                col <= BUFFER_WIDTH,
                forall|r: int|
                    0 <= r < BUFFER_HEIGHT - 1 ==> #[trigger] self.grid()[r] == orig.grid()[r + 1],
                forall|c: int|
                    0 <= c < col ==> #[trigger] self.grid()[BUFFER_HEIGHT - 1][c]
                        == ScreenChar::spec_blank(),
            decreases BUFFER_WIDTH - col,
        {
            let ghost pre = *self;
            self.buffer.write_cell(BUFFER_HEIGHT - 1, col, ScreenChar::blank());
            proof {
                assert(self.grid() == pre.grid().update(
                    BUFFER_HEIGHT - 1,
                    pre.grid()[BUFFER_HEIGHT - 1].update(col as int, ScreenChar::spec_blank()),
                ));
            }
            col += 1;
        }
        proof {
            assert(self.grid()[BUFFER_HEIGHT - 1] =~= blank_row());
            assert forall|r: int| 0 <= r < BUFFER_HEIGHT implies self.grid()[r] == spec_scroll(
                orig.grid(),
            )[r] by {
                if r < BUFFER_HEIGHT - 1 {
                    assert(self.grid()[r] == orig.grid()[r + 1]);
                } else {
                    assert(self.grid()[r] == blank_row());
                }
            }
            assert(self.grid() =~= spec_scroll(orig.grid()));
        }
        self.column_position = 0;
    }

    /// Writes one byte at the cursor, scrolling first on a newline or a full
    /// row; exactly one cell changes unless a scroll runs too.
    pub fn write_byte(&mut self, byte: u8)
        requires
            old(self).wf(),
        ensures
            final(self).wf(),
            final(self).color() == old(self).color(),
            (final(self).grid(), final(self).col()) == spec_write_byte(
                old(self).grid(),
                old(self).col(),
                old(self).color(),
                byte,
            ),
            0 <= final(self).col() <= BUFFER_WIDTH,
            byte == NEWLINE ==> final(self).col() == 0 && final(self).grid()[BUFFER_HEIGHT - 1]
                == blank_row(),
    {
        if byte == NEWLINE {
            self.new_line();
        } else {
            if self.column_position >= BUFFER_WIDTH {
                self.new_line();
            }
            let row = BUFFER_HEIGHT - 1;
            let col = self.column_position;
            self.buffer.write_cell(
                row,
                col,
                ScreenChar { ascii_character: byte, color_code: self.color_code },
            );
            self.column_position = col + 1;
        }
    }

    /// Writes a string as its raw bytes, classifying each one: the newline
    /// byte and printable bytes pass through unchanged, every other byte is
    /// shown as the substitute glyph. One cell-writing call runs per byte.
    pub fn write_string(&mut self, s: &str)
        requires
            old(self).wf(),
        ensures
            final(self).wf(),
            final(self).color() == old(self).color(),
            (final(self).grid(), final(self).col()) == spec_write_bytes(
                old(self).grid(),
                old(self).col(),
                old(self).color(),
                s.spec_bytes(),
            ),
            0 <= final(self).col() <= BUFFER_WIDTH,
    {
        let ghost orig = *self;
        let bytes: &[u8] = s.as_bytes();
        let n: usize = bytes.len();
        let mut i: usize = 0;
        proof {
            assert(bytes@.skip(0) =~= bytes@);
        }
        while i < n
            invariant
                self.wf(),
                self.color_code == orig.color_code,
                i <= n,
                n == bytes@.len(),
                bytes@ == s.spec_bytes(),
                spec_write_bytes(self.grid(), self.col(), orig.color(), bytes@.skip(i as int))
                    == spec_write_bytes(orig.grid(), orig.col(), orig.color(), bytes@),
            decreases n - i,
        {
            let byte = bytes[i];
            let out = if byte == NEWLINE || (0x20 <= byte && byte <= 0x7E) {
                byte
            } else {
                SUBSTITUTE
            };
            proof {
                assert(out == spec_substitute(bytes@[i as int]));
                assert(bytes@.skip(i as int)[0] == bytes@[i as int]);
                assert(bytes@.skip(i as int).drop_first() =~= bytes@.skip(i as int + 1));
            }
            let ghost pre = *self;
            self.write_byte(out);
            proof {
                assert(spec_write_bytes(pre.grid(), pre.col(), orig.color(), bytes@.skip(i as int))
                    == spec_write_bytes(
                    self.grid(),
                    self.col(),
                    orig.color(),
                    bytes@.skip(i as int + 1),
                ));
            }
            i += 1;
        }
        proof {
            assert(bytes@.skip(n as int) =~= Seq::<u8>::empty());
        }
    }
}

/// The cursor never leaves [0, BUFFER_WIDTH] when one byte is written from a
/// non-negative column.
pub proof fn lemma_column_in_bounds(g: Seq<Seq<ScreenChar>>, col: int, cc: ColorCode, byte: u8)
    requires
        0 <= col,
    ensures
        0 <= spec_write_byte(g, col, cc, byte).1 <= BUFFER_WIDTH,
{
}

/// For every sequence of written bytes, the cursor stays within
/// [0, BUFFER_WIDTH] after every call.
pub proof fn lemma_column_always_in_bounds(
    g: Seq<Seq<ScreenChar>>,
    col: int,
    cc: ColorCode,
    bytes: Seq<u8>,
)
    requires
        0 <= col <= BUFFER_WIDTH,
    ensures
        0 <= spec_write_bytes(g, col, cc, bytes).1 <= BUFFER_WIDTH,
    decreases bytes.len(),
{
    if bytes.len() > 0 {
        let stepped = spec_write_byte(g, col, cc, spec_substitute(bytes[0]));
        lemma_column_in_bounds(g, col, cc, spec_substitute(bytes[0]));
        lemma_column_always_in_bounds(stepped.0, stepped.1, cc, bytes.drop_first());
    }
}

/// Writing the newline byte always returns the cursor to column 0 and leaves
/// every cell of the bottom row equal to the blank cell.
pub proof fn lemma_newline_resets(g: Seq<Seq<ScreenChar>>, col: int, cc: ColorCode)
    ensures
        spec_write_byte(g, col, cc, NEWLINE).1 == 0,
        spec_write_byte(g, col, cc, NEWLINE).0[BUFFER_HEIGHT - 1] == blank_row(),
        forall|c: int|
            0 <= c < BUFFER_WIDTH ==> #[trigger] spec_write_byte(g, col, cc, NEWLINE).0[
                BUFFER_HEIGHT - 1][c] == ScreenChar::spec_blank(),
{
}

/// After a scroll, each row holds what the row below it held before, for
/// every column, and the bottom row is all blank.
pub proof fn lemma_scroll_shifts_rows(g: Seq<Seq<ScreenChar>>)
    ensures
        forall|r: int| 0 <= r < BUFFER_HEIGHT - 1 ==> #[trigger] spec_scroll(g)[r] == g[r + 1],
        forall|r: int, c: int|
            0 <= r < BUFFER_HEIGHT - 1 && 0 <= c < BUFFER_WIDTH ==> #[trigger] spec_scroll(g)[r][c]
                == g[r + 1][c],
        spec_scroll(g)[BUFFER_HEIGHT - 1] == blank_row(),
        forall|c: int|
            0 <= c < BUFFER_WIDTH ==> #[trigger] spec_scroll(g)[BUFFER_HEIGHT - 1][c]
                == ScreenChar::spec_blank(),
{
}

/// For every byte value that is neither the newline byte nor printable,
/// writing it through the classifying path is indistinguishable from writing
/// the substitute glyph byte itself.
pub proof fn lemma_substitution(g: Seq<Seq<ScreenChar>>, col: int, cc: ColorCode, byte: u8)
    requires
        byte != NEWLINE,
        !(0x20 <= byte && byte <= 0x7E),
    ensures
        spec_substitute(byte) == SUBSTITUTE,
        spec_write_bytes(g, col, cc, seq![byte]) == spec_write_bytes(g, col, cc, seq![SUBSTITUTE]),
{
    assert(seq![byte].drop_first() =~= Seq::<u8>::empty());
    assert(seq![SUBSTITUTE].drop_first() =~= Seq::<u8>::empty());
}

} // verus!
