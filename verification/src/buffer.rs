use vstd::prelude::*;
use crate::color::ColorCode;
use volatile::Volatile;

verus! {

/// Number of rows in the character grid.
pub const BUFFER_HEIGHT: usize = 25;

/// Number of columns in the character grid.
pub const BUFFER_WIDTH: usize = 80;

/// One character cell: a glyph index in the device's codepage and the packed
/// color attribute it is drawn with.
#[derive(Clone, Copy, PartialEq, Eq, Structural, Debug)]
pub struct ScreenChar {
    pub ascii_character: u8,
    pub color_code: ColorCode,
}

impl ScreenChar {
    /// The blank cell a cleared row is filled with: glyph 0, attribute 0.
    pub open spec fn spec_blank() -> ScreenChar {
        ScreenChar { ascii_character: 0, color_code: ColorCode(0) }
    }

    pub fn blank() -> (r: ScreenChar)
        ensures
            r == ScreenChar::spec_blank(),
    {
        ScreenChar { ascii_character: 0, color_code: ColorCode(0) }
    }
}

impl Default for ScreenChar {
    fn default() -> (r: Self)
        ensures
            r == ScreenChar::spec_blank(),
    {
        ScreenChar::blank()
    }
}

#[verifier::external_type_specification]
#[verifier::external_body]
#[verifier::reject_recursive_types(T)]
pub struct ExVolatile<T: Copy>(Volatile<T>);

/// The value a volatile cell currently holds.
pub uninterp spec fn vol_value(cell: Volatile<ScreenChar>) -> ScreenChar;

/// Relies on volatile::Volatile::new: the returned wrapper holds exactly the
/// value given.
#[verifier::external_body]
fn vol_new(value: ScreenChar) -> (cell: Volatile<ScreenChar>)
    ensures
        vol_value(cell) == value,
{
    Volatile::new(value)
}

/// Relies on volatile::Volatile::read: a volatile load returns a copy of the
/// value the cell holds.
#[verifier::external_body]
fn vol_read(cells: &Vec<Volatile<ScreenChar>>, i: usize) -> (r: ScreenChar)
    requires
        i < cells@.len(),
    ensures
        r == vol_value(cells@[i as int]),
{
    cells[i].read()
}

/// Relies on volatile::Volatile::write: a volatile store replaces the value
/// the cell holds; the other cells are untouched.
#[verifier::external_body]
fn vol_write(cells: &mut Vec<Volatile<ScreenChar>>, i: usize, value: ScreenChar)
    requires
        i < old(cells)@.len(),
    ensures
        final(cells)@.len() == old(cells)@.len(),
        vol_value(final(cells)@[i as int]) == value,
        forall|j: int| 0 <= j < old(cells)@.len() && j != i ==> final(cells)@[j] == old(cells)@[j],
{
    cells[i].write(value)
}

/// A row in which every cell is blank.
pub open spec fn blank_row() -> Seq<ScreenChar> {
    Seq::new(BUFFER_WIDTH as nat, |c: int| ScreenChar::spec_blank())
}

/// A grid in which every cell is blank.
pub open spec fn blank_grid() -> Seq<Seq<ScreenChar>> {
    Seq::new(BUFFER_HEIGHT as nat, |r: int| blank_row())
}

/// The 25 x 80 grid of character cells, each behind a volatile wrapper so
/// that every access to it is an actual device access. Rows are stored back
/// to back: the cell at (row, col) sits at index row * BUFFER_WIDTH + col.
pub struct FrameBuffer {
    cells: Vec<Volatile<ScreenChar>>,
}

impl FrameBuffer {
    /// The grid as a sequence of rows of cell values.
    pub closed spec fn grid(self) -> Seq<Seq<ScreenChar>> {
        Seq::new(
            BUFFER_HEIGHT as nat,
            |r: int|
                Seq::new(
                    BUFFER_WIDTH as nat,
                    |c: int| vol_value(self.cells@[r * (BUFFER_WIDTH as int) + c]),
                ),
        )
    }

    /// The storage holds exactly one cell per grid slot.
    pub closed spec fn wf(self) -> bool {
        self.cells@.len() == BUFFER_HEIGHT * BUFFER_WIDTH
    }

    /// The grid always has BUFFER_HEIGHT rows of BUFFER_WIDTH cells.
    pub broadcast proof fn lemma_grid_shape(self)
        ensures
            (#[trigger] self.grid()).len() == BUFFER_HEIGHT,
            forall|r: int|
                0 <= r < BUFFER_HEIGHT ==> (#[trigger] self.grid()[r]).len() == BUFFER_WIDTH,
    {
    }

    /// A fresh, cleared grid: every cell blank.
    pub fn new() -> (r: FrameBuffer)
        ensures
            r.wf(),
            r.grid() == blank_grid(),
    {
        let mut cells: Vec<Volatile<ScreenChar>> = Vec::new();
        let total: usize = BUFFER_HEIGHT * BUFFER_WIDTH;
        while cells.len() < total
            invariant
                total == BUFFER_HEIGHT * BUFFER_WIDTH,
                cells@.len() <= total,
                forall|j: int|
                    0 <= j < cells@.len() ==> vol_value(#[trigger] cells@[j])
                        == ScreenChar::spec_blank(),
            decreases total - cells@.len(),
        {
            cells.push(vol_new(ScreenChar::blank()));
        }
        let r = FrameBuffer { cells };
        proof {
            assert forall|row: int| 0 <= row < BUFFER_HEIGHT implies r.grid()[row]
                =~= blank_grid()[row] by {
                assert forall|c: int| 0 <= c < BUFFER_WIDTH implies r.grid()[row][c]
                    == ScreenChar::spec_blank() by {
                    assert(0 <= row * (BUFFER_WIDTH as int) + c < r.cells@.len());
                }
            }
            assert(r.grid() =~= blank_grid());
        }
        r
    }

    /// Reads the cell at (row, col).
    pub fn read_cell(&self, row: usize, col: usize) -> (r: ScreenChar)
        requires
            self.wf(),
            row < BUFFER_HEIGHT,
            col < BUFFER_WIDTH,
        ensures
            r == self.grid()[row as int][col as int],
    {
        vol_read(&self.cells, row * BUFFER_WIDTH + col)
    }

    /// Overwrites the cell at (row, col), leaving every other cell as it was.
    pub(crate) fn write_cell(&mut self, row: usize, col: usize, value: ScreenChar)
        requires
            old(self).wf(),
            row < BUFFER_HEIGHT,
            col < BUFFER_WIDTH,
        ensures
            final(self).wf(),
            final(self).grid() == old(self).grid().update(
                row as int,
                old(self).grid()[row as int].update(col as int, value),
            ),
    {
        vol_write(&mut self.cells, row * BUFFER_WIDTH + col, value);
        proof {
            let updated = old(self).grid().update(
                row as int,
                old(self).grid()[row as int].update(col as int, value),
            );
            assert forall|r: int| 0 <= r < BUFFER_HEIGHT implies self.grid()[r]
                =~= updated[r] by {
                assert forall|c: int| 0 <= c < BUFFER_WIDTH implies self.grid()[r][c]
                    == updated[r][c] by {
                    let i = r * (BUFFER_WIDTH as int) + c;
                    let w = row * (BUFFER_WIDTH as int) + col;
                    assert(0 <= i < old(self).cells@.len());
                    if r == row && c == col {
                        assert(i == w);
                    } else {
                        assert(i != w);
                    }
                }
            }
            assert(self.grid() =~~= updated);
        }
    }
}

} // verus!
