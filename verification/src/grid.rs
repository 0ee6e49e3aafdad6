use vstd::prelude::*;
use vstd::arithmetic::div_mod::{
    lemma_fundamental_div_mod_converse, lemma_mod_multiples_vanish, lemma_mod_self_0,
    lemma_small_mod,
};
use crate::cell::{cell_bit, next_cell, next_cell_state, CellState};

verus! {

/// Why a grid could not be constructed: the cell sequence does not have
/// length `width * height`, or some element is neither 0 nor 1.
#[derive(Clone, Copy, PartialEq, Eq, Structural, Debug)]
pub enum FieldError {
    InvalidLength,
    InvalidCellValue,
}

/// A fixed-size toroidal grid. `cells` holds one state per cell in
/// row-major order (index = row * width + column) and always has length
/// `width * height`; the dimensions never change after construction.
#[derive(Debug)]
pub struct Field {
    pub width: usize,
    pub height: usize,
    pub cells: Vec<CellState>,
}

/// The layout entry at `i` is not a valid cell value.
pub open spec fn invalid_at(layout: Seq<usize>, i: int) -> bool {
    layout[i] != 0 && layout[i] != 1
}

/// The row-major index of the cell reached from (row, column) by the
/// offsets (delta_row, delta_col), wrapped on both axes.
pub open spec fn wrapped_index(
    width: nat,
    height: nat,
    row: int,
    column: int,
    delta_row: int,
    delta_col: int,
) -> int {
    ((row + delta_row) % (height as int)) * (width as int) + ((column + delta_col) % (width as int))
}

/// The 0/1 value of the cell reached from (row, column) by the wrapped
/// offsets (delta_row, delta_col).
pub open spec fn wrapped_bit(
    cells: Seq<CellState>,
    width: nat,
    height: nat,
    row: int,
    column: int,
    delta_row: int,
    delta_col: int,
) -> int {
    cell_bit(cells[wrapped_index(width, height, row, column, delta_row, delta_col)]) as int
}

/// How many of the eight toroidal neighbours of (row, column) are alive.
/// The offsets `height - 1` and `width - 1` act as -1 under wraparound.
/// On a degenerate grid (width or height of 1) distinct offsets reach
/// the same physical cell, which is then counted once per offset; this
/// folding is the intended behaviour of the wraparound scheme.
pub open spec fn spec_live_neighbor_count(
    cells: Seq<CellState>,
    width: nat,
    height: nat,
    row: int,
    column: int,
) -> int {
    wrapped_bit(cells, width, height, row, column, height - 1, width - 1)
        + wrapped_bit(cells, width, height, row, column, height - 1, 0)
        + wrapped_bit(cells, width, height, row, column, height - 1, 1)
        + wrapped_bit(cells, width, height, row, column, 0, width - 1)
        + wrapped_bit(cells, width, height, row, column, 0, 1)
        + wrapped_bit(cells, width, height, row, column, 1, width - 1)
        + wrapped_bit(cells, width, height, row, column, 1, 0)
        + wrapped_bit(cells, width, height, row, column, 1, 1)
}

/// The whole next generation: one rule application per cell, each one
/// reading only the pre-advance buffer.
pub open spec fn spec_next_cells(cells: Seq<CellState>, width: nat, height: nat) -> Seq<
    CellState,
> {
    Seq::new(
        cells.len(),
        |i: int|
            next_cell_state(
                cells[i],
                spec_live_neighbor_count(
                    cells,
                    width,
                    height,
                    i / (width as int),
                    i % (width as int),
                ),
            ),
    )
}

/// `shot` is the grid state exposed as 2-D rows of 0/1 values: `height`
/// rows of `width` columns each, in row-major visual order.
pub open spec fn snapshot_matches(
    shot: Seq<Vec<u8>>,
    cells: Seq<CellState>,
    width: nat,
    height: nat,
) -> bool {
    &&& shot.len() == height
    &&& forall|r: int| 0 <= r < height ==> (#[trigger] shot[r])@.len() == width
    &&& forall|r: int, c: int|
        0 <= r < height && 0 <= c < width ==> #[trigger] shot[r]@[c] == cell_bit(
            cells[r * width + c],
        )
}

impl Field {
    /// The construction invariant: the buffer holds exactly one state
    /// per cell of the width-by-height grid.
    pub open spec fn wf(self) -> bool {
        self.cells@.len() == self.width * self.height
    }

    /// Builds a grid from a 0/1 layout. Fails with `InvalidLength` when
    /// the layout does not have `width * height` entries, and with
    /// `InvalidCellValue` when some entry is neither 0 nor 1; otherwise
    /// returns the grid with the layout mapped to cell states in order.
    pub fn new(width: usize, height: usize, cells: Vec<usize>) -> (result: Result<
        Field,
        FieldError,
    >)
        requires
            width * height <= usize::MAX,
        ensures
            match result {
                Ok(field) => {
                    &&& field.wf()
                    &&& field.width == width
                    &&& field.height == height
                    &&& cells@.len() == width * height
                    &&& forall|i: int|
                        0 <= i < cells@.len() ==> ((#[trigger] cells@[i]) == 0 || cells@[i] == 1)
                    &&& field.cells@.len() == cells@.len()
                    &&& forall|i: int|
                        0 <= i < cells@.len() ==> (#[trigger] field.cells@[i]) == (if cells@[i]
                            == 1 {
                            CellState::Alive
                        } else {
                            CellState::Dead
                        })
                },
                Err(FieldError::InvalidLength) => cells@.len() != width * height,
                Err(FieldError::InvalidCellValue) => {
                    &&& cells@.len() == width * height
                    &&& exists|i: int| 0 <= i < cells@.len() && #[trigger] invalid_at(cells@, i)
                },
            },
    {
        if width * height != cells.len() {
            return Err(FieldError::InvalidLength);
        }
        let n = cells.len();
        let mut states: Vec<CellState> = Vec::new();
        let mut i: usize = 0;
        while i < n
            invariant
                n == cells@.len(),
                cells@.len() == width * height,
                i <= n,
                states@.len() == i,
                forall|j: int| 0 <= j < i ==> ((#[trigger] cells@[j]) == 0 || cells@[j] == 1),
                forall|j: int|
                    0 <= j < i ==> (#[trigger] states@[j]) == (if cells@[j] == 1 {
                        CellState::Alive
                    } else {
                        CellState::Dead
                    }),
            decreases n - i,
        {
            let value = cells[i];
            if value == 0 {
                states.push(CellState::Dead);
            } else if value == 1 {
                states.push(CellState::Alive);
            } else {
                assert(invalid_at(cells@, i as int));
                return Err(FieldError::InvalidCellValue);
            }
            i = i + 1;
        }
        Ok(Field { width, height, cells: states })
    }

    /// The row-major index of (row, column).
    pub fn get_index(&self, row: usize, column: usize) -> (idx: usize)
        requires
            self.wf(),
            row < self.height,
            column < self.width,
        ensures
            idx == row * self.width + column,
            idx < self.cells@.len(),
    {
        let n = self.cells.len();
        proof {
            assert(n == self.cells@.len());
            assert(row * self.width + column < self.width * self.height) by (nonlinear_arith)
                requires
                    row < self.height,
                    column < self.width,
            ;
        }
        row * self.width + column
    }

    /// The 0/1 value of the cell at (row, column).
    fn cell_bit_at(&self, row: usize, column: usize) -> (bit: u8)
        requires
            self.wf(),
            row < self.height,
            column < self.width,
        ensures
            bit == cell_bit(self.cells@[row * self.width + column]),
    {
        let idx = self.get_index(row, column);
        match self.cells[idx] {
            CellState::Alive => 1,
            CellState::Dead => 0,
        }
    }

    /// Counts the live cells among the eight toroidal neighbours of
    /// (row, column), wrapping on both axes.
    pub fn live_neighbor_count(&self, row: usize, column: usize) -> (count: u8)
        requires
            self.wf(),
            row < self.height,
            column < self.width,
        ensures
            count as int == spec_live_neighbor_count(
                self.cells@,
                self.width as nat,
                self.height as nat,
                row as int,
                column as int,
            ),
    {
        let w = self.width;
        let h = self.height;
        let row_up = if row == 0 {
            h - 1
        } else {
            row - 1
        };
        let row_down = if row + 1 == h {
            0
        } else {
            row + 1
        };
        let col_left = if column == 0 {
            w - 1
        } else {
            column - 1
        };
        let col_right = if column + 1 == w {
            0
        } else {
            column + 1
        };
        proof {
            lemma_wrap_dec(row as int, h as nat);
            lemma_wrap_zero(row as int, h as nat);
            lemma_wrap_inc(row as int, h as nat);
            lemma_wrap_dec(column as int, w as nat);
            lemma_wrap_zero(column as int, w as nat);
            lemma_wrap_inc(column as int, w as nat);
            assert(row_up as int == (row + (h - 1)) % (h as int));
            assert(row as int == (row + 0) % (h as int));
            assert(row_down as int == (row + 1) % (h as int));
            assert(col_left as int == (column + (w - 1)) % (w as int));
            assert(column as int == (column + 0) % (w as int));
            assert(col_right as int == (column + 1) % (w as int));
        }
        let ghost cs = self.cells@;
        let ghost wn = self.width as nat;
        let ghost hn = self.height as nat;
        let ghost r = row as int;
        let ghost c = column as int;
        let bit_1 = self.cell_bit_at(row_up, col_left);
        let bit_2 = self.cell_bit_at(row_up, column);
        let bit_3 = self.cell_bit_at(row_up, col_right);
        let bit_4 = self.cell_bit_at(row, col_left);
        let bit_5 = self.cell_bit_at(row, col_right);
        let bit_6 = self.cell_bit_at(row_down, col_left);
        let bit_7 = self.cell_bit_at(row_down, column);
        let bit_8 = self.cell_bit_at(row_down, col_right);
        proof {
            assert(bit_1 as int == wrapped_bit(cs, wn, hn, r, c, hn - 1, wn - 1));
            assert(bit_2 as int == wrapped_bit(cs, wn, hn, r, c, hn - 1, 0));
            assert(bit_3 as int == wrapped_bit(cs, wn, hn, r, c, hn - 1, 1));
            assert(bit_4 as int == wrapped_bit(cs, wn, hn, r, c, 0, wn - 1));
            assert(bit_5 as int == wrapped_bit(cs, wn, hn, r, c, 0, 1));
            assert(bit_6 as int == wrapped_bit(cs, wn, hn, r, c, 1, wn - 1));
            assert(bit_7 as int == wrapped_bit(cs, wn, hn, r, c, 1, 0));
            assert(bit_8 as int == wrapped_bit(cs, wn, hn, r, c, 1, 1));
        }
        let count = bit_1 + bit_2 + bit_3 + bit_4 + bit_5 + bit_6 + bit_7 + bit_8;
        count
    }

    /// Computes the full next-generation buffer from the current one.
    fn compute_next(&self) -> (next_cells: Vec<CellState>)
        requires
            self.wf(),
        ensures
            next_cells@ == spec_next_cells(self.cells@, self.width as nat, self.height as nat),
    {
        let w = self.width;
        let h = self.height;
        let mut next_cells: Vec<CellState> = Vec::new();
        let mut row: usize = 0;
        while row < h
            invariant
                self.wf(),
                w == self.width,
                h == self.height,
                row <= h,
                next_cells@.len() == row * w,
                next_cells@.len() <= self.cells@.len(),
                forall|i: int|
                    0 <= i < next_cells@.len() ==> #[trigger] next_cells@[i] == spec_next_cells(
                        self.cells@,
                        w as nat,
                        h as nat,
                    )[i],
            decreases h - row,
        {
            let mut column: usize = 0;
            proof {
                assert(row * w + w <= h * w) by (nonlinear_arith)
                    requires
                        row < h,
                ;
                assert(h * w == w * h) by (nonlinear_arith);
            }
            while column < w
                invariant
                    self.wf(),
                    w == self.width,
                    h == self.height,
                    row < h,
                    column <= w,
                    row * w + w <= self.cells@.len(),
                    next_cells@.len() == row * w + column,
                    forall|i: int|
                        0 <= i < next_cells@.len() ==> #[trigger] next_cells@[i]
                            == spec_next_cells(self.cells@, w as nat, h as nat)[i],
                decreases w - column,
            {
                let idx = self.get_index(row, column);
                let current = self.cells[idx];
                let live_neighbors = self.live_neighbor_count(row, column);
                let next = next_cell(current, live_neighbors);
                proof {
                    lemma_row_major(row as int, column as int, w as nat);
                }
                next_cells.push(next);
                column = column + 1;
            }
            proof {
                assert((row + 1) * w == row * w + w) by (nonlinear_arith);
            }
            row = row + 1;
        }
        proof {
            assert(h * w == w * h) by (nonlinear_arith);
            assert(next_cells@ =~= spec_next_cells(self.cells@, w as nat, h as nat));
        }
        next_cells
    }

    /// Advances the grid one generation in place. The entire next buffer
    /// is computed from the pre-advance state before it replaces the old
    /// one, so no cell ever sees an already-updated neighbour. The buffer
    /// length, and with it the construction invariant, is preserved.
    pub fn next(&mut self)
        requires
            old(self).wf(),
        ensures
            final(self).wf(),
            final(self).width == old(self).width,
            final(self).height == old(self).height,
            final(self).cells@.len() == old(self).cells@.len(),
            final(self).cells@ == spec_next_cells(
                old(self).cells@,
                old(self).width as nat,
                old(self).height as nat,
            ),
            forall|row: int, column: int|
                0 <= row < old(self).height && 0 <= column < old(self).width
                    ==> final(self).cells@[row * old(self).width + column] == next_cell_state(
                    old(self).cells@[row * old(self).width + column],
                    spec_live_neighbor_count(
                        old(self).cells@,
                        old(self).width as nat,
                        old(self).height as nat,
                        row,
                        column,
                    ),
                ),
    {
        let next_cells = self.compute_next();
        self.cells = next_cells;
        proof {
            let w = old(self).width;
            let h = old(self).height;
            assert forall|row: int, column: int|
                0 <= row < h && 0 <= column < w implies self.cells@[row * w + column]
                == next_cell_state(
                old(self).cells@[row * w + column],
                spec_live_neighbor_count(old(self).cells@, w as nat, h as nat, row, column),
            ) by {
                lemma_row_major(row, column, w as nat);
                assert(row * w + column < w * h) by (nonlinear_arith)
                    requires
                        0 <= row < h,
                        0 <= column < w,
                ;
            }
        }
    }

    /// Exposes the grid as 2-D rows of 0/1 values: `height` rows of
    /// `width` columns each, alive as 1 and dead as 0. Pure read.
    pub fn drow_as_2d_bit_array(&self) -> (result: Vec<Vec<u8>>)
        requires
            self.wf(),
            0 < self.width,
        ensures
            snapshot_matches(result@, self.cells@, self.width as nat, self.height as nat),
    {
        let w = self.width;
        let h = self.height;
        let mut result: Vec<Vec<u8>> = Vec::new();
        let mut row: usize = 0;
        while row < h
            invariant
                self.wf(),
                w == self.width,
                h == self.height,
                row <= h,
                result@.len() == row,
                forall|r: int| 0 <= r < row ==> (#[trigger] result@[r])@.len() == w,
                forall|r: int, c: int|
                    0 <= r < row && 0 <= c < w ==> #[trigger] result@[r]@[c] == cell_bit(
                        self.cells@[r * w + c],
                    ),
            decreases h - row,
        {
            let mut inner: Vec<u8> = Vec::new();
            let mut column: usize = 0;
            while column < w
                invariant
                    self.wf(),
                    w == self.width,
                    h == self.height,
                    row < h,
                    column <= w,
                    inner@.len() == column,
                    forall|c: int|
                        0 <= c < column ==> #[trigger] inner@[c] == cell_bit(
                            self.cells@[row * w + c],
                        ),
                decreases w - column,
            {
                let bit = self.cell_bit_at(row, column);
                inner.push(bit);
                column = column + 1;
            }
            result.push(inner);
            row = row + 1;
        }
        result
    }
}

/// For (row, column) inside the grid, the row-major index decomposes
/// back into exactly that row and column.
proof fn lemma_row_major(row: int, column: int, width: nat)
    requires
        0 <= row,
        0 <= column < width,
    ensures
        (row * width + column) / (width as int) == row,
        (row * width + column) % (width as int) == column,
{
    lemma_fundamental_div_mod_converse(row * width + column, width as int, row, column);
}

/// Wrapping one step upward/leftward: adding `m - 1` and reducing
/// modulo `m` subtracts one, wrapping 0 around to `m - 1`.
proof fn lemma_wrap_dec(x: int, m: nat)
    requires
        0 <= x < m,
    ensures
        (x + (m - 1)) % (m as int) == (if x == 0 {
            m - 1
        } else {
            x - 1
        }),
{
    if x == 0 {
        lemma_small_mod((m - 1) as nat, m);
    } else {
        lemma_mod_multiples_vanish(1, x - 1, m as int);
        lemma_small_mod((x - 1) as nat, m);
    }
}

/// Adding the zero offset and reducing modulo `m` changes nothing.
proof fn lemma_wrap_zero(x: int, m: nat)
    requires
        0 <= x < m,
    ensures
        (x + 0) % (m as int) == x,
{
    lemma_small_mod(x as nat, m);
}

/// Wrapping one step downward/rightward: adding one and reducing
/// modulo `m` wraps `m - 1` around to 0.
proof fn lemma_wrap_inc(x: int, m: nat)
    requires
        0 <= x < m,
    ensures
        (x + 1) % (m as int) == (if x + 1 == m {
            0int
        } else {
            x + 1
        }),
{
    if x + 1 == m {
        lemma_mod_self_0(m as int);
    } else {
        lemma_small_mod((x + 1) as nat, m);
    }
}

/// Any live cell with fewer than two live neighbours dies; with two or
/// three it lives on; with more than three it dies.
pub proof fn lemma_live_cell_rule(
    cells: Seq<CellState>,
    width: nat,
    height: nat,
    row: int,
    column: int,
)
    requires
        cells.len() == width * height,
        0 <= row < height,
        0 <= column < width,
        cells[row * width + column] == CellState::Alive,
    ensures
        spec_live_neighbor_count(cells, width, height, row, column) < 2 ==> spec_next_cells(
            cells,
            width,
            height,
        )[row * width + column] == CellState::Dead,
        (2 <= spec_live_neighbor_count(cells, width, height, row, column)
            && spec_live_neighbor_count(cells, width, height, row, column) <= 3)
            ==> spec_next_cells(cells, width, height)[row * width + column] == CellState::Alive,
        spec_live_neighbor_count(cells, width, height, row, column) > 3 ==> spec_next_cells(
            cells,
            width,
            height,
        )[row * width + column] == CellState::Dead,
{
    lemma_row_major(row, column, width);
    assert(row * width + column < width * height) by (nonlinear_arith)
        requires
            0 <= row < height,
            0 <= column < width,
    ;
}

/// Any dead cell with exactly three live neighbours becomes alive; with
/// any other count it stays dead.
pub proof fn lemma_dead_cell_rule(
    cells: Seq<CellState>,
    width: nat,
    height: nat,
    row: int,
    column: int,
)
    requires
        cells.len() == width * height,
        0 <= row < height,
        0 <= column < width,
        cells[row * width + column] == CellState::Dead,
    ensures
        spec_live_neighbor_count(cells, width, height, row, column) == 3 ==> spec_next_cells(
            cells,
            width,
            height,
        )[row * width + column] == CellState::Alive,
        spec_live_neighbor_count(cells, width, height, row, column) != 3 ==> spec_next_cells(
            cells,
            width,
            height,
        )[row * width + column] == CellState::Dead,
{
    lemma_row_major(row, column, width);
    assert(row * width + column < width * height) by (nonlinear_arith)
        requires
            0 <= row < height,
            0 <= column < width,
    ;
}

/// The grid is a torus: seen from the bottom-right cell, the cell at
/// (0, 0) is its (+1, +1) neighbour, reached by wrapping both axes. With
/// (0, 0) alive, the bottom-right cell therefore counts at least one
/// live neighbour.
pub proof fn lemma_toroidal_wraparound(cells: Seq<CellState>, width: nat, height: nat)
    requires
        cells.len() == width * height,
        0 < width,
        0 < height,
        cells[0] == CellState::Alive,
    ensures
        spec_live_neighbor_count(cells, width, height, height - 1, width - 1) >= 1,
{
    lemma_mod_self_0(height as int);
    lemma_mod_self_0(width as int);
    assert(((height - 1) + 1) % (height as int) == 0);
    assert(((width - 1) + 1) % (width as int) == 0);
    assert(wrapped_index(width, height, height - 1, width - 1, 1, 1) == 0int * (width as int)
        + 0);
    assert(wrapped_bit(cells, width, height, height - 1, width - 1, 1, 1) == 1);
}

} // verus!
