use vstd::prelude::*;
use vstd::string::StringExecFns;
use crate::cell::CellState;
use crate::grid::Field;

verus! {

/// The character a cell is drawn as.
pub open spec fn cell_char(c: CellState) -> char {
    match c {
        CellState::Dead => '□',
        CellState::Alive => '■',
    }
}

/// The characters drawn for row `row` from column `column` to the end
/// of the row: each cell followed by a single space, except the last
/// cell of the row, which is followed by the row's newline.
pub open spec fn spec_row_chars(cells: Seq<CellState>, width: nat, row: int, column: nat) -> Seq<
    char,
>
    decreases width - column,
{
    if column >= width {
        seq!['\n']
    } else if column + 1 == width {
        seq![cell_char(cells[row * width + column])] + spec_row_chars(
            cells,
            width,
            row,
            column + 1,
        )
    } else {
        seq![cell_char(cells[row * width + column]), ' '] + spec_row_chars(
            cells,
            width,
            row,
            column + 1,
        )
    }
}

/// The characters drawn for all rows from `row` downward.
pub open spec fn spec_render(cells: Seq<CellState>, width: nat, height: nat, row: nat) -> Seq<char>
    decreases height - row,
{
    if row >= height {
        Seq::empty()
    } else {
        spec_row_chars(cells, width, row as int, 0) + spec_render(cells, width, height, row + 1)
    }
}

impl Field {
    /// Draws the grid as text, one line per row: cells separated by
    /// single spaces, alive drawn as '■' and dead as '□'.
    pub fn drow(&self) -> (out: String)
        requires
            self.wf(),
            0 < self.width,
        ensures
            out@ == spec_render(self.cells@, self.width as nat, self.height as nat, 0),
    {
        let w = self.width;
        let h = self.height;
        let mut out = String::new();
        let mut row: usize = 0;
        while row < h
            invariant
                self.wf(),
                w == self.width,
                h == self.height,
                0 < w,
                row <= h,
                out@ + spec_render(self.cells@, w as nat, h as nat, row as nat) == spec_render(
                    self.cells@,
                    w as nat,
                    h as nat,
                    0,
                ),
            decreases h - row,
        {
            let ghost out_at_row: Seq<char> = out@;
            let mut column: usize = 0;
            while column < w
                invariant
                    self.wf(),
                    w == self.width,
                    h == self.height,
                    0 < w,
                    row < h,
                    column <= w,
                    out@ + spec_row_chars(self.cells@, w as nat, row as int, column as nat)
                        == out_at_row + spec_row_chars(self.cells@, w as nat, row as int, 0),
                decreases w - column,
            {
                let idx = self.get_index(row, column);
                let cell = self.cells[idx];
                let piece: &str = if column + 1 == w {
                    match cell {
                        CellState::Alive => "■",
                        CellState::Dead => "□",
                    }
                } else {
                    match cell {
                        CellState::Alive => "■ ",
                        CellState::Dead => "□ ",
                    }
                };
                let ghost out_before: Seq<char> = out@;
                out.append(piece);
                proof {
                    reveal_strlit("■");
                    reveal_strlit("□");
                    reveal_strlit("■ ");
                    reveal_strlit("□ ");
                    assert("■"@ =~= seq!['■']);
                    assert("□"@ =~= seq!['□']);
                    assert("■ "@ =~= seq!['■', ' ']);
                    assert("□ "@ =~= seq!['□', ' ']);
                    assert(piece@ + spec_row_chars(
                        self.cells@,
                        w as nat,
                        row as int,
                        (column + 1) as nat,
                    ) =~= spec_row_chars(self.cells@, w as nat, row as int, column as nat));
                    assert(out@ + spec_row_chars(
                        self.cells@,
                        w as nat,
                        row as int,
                        (column + 1) as nat,
                    ) =~= out_at_row + spec_row_chars(self.cells@, w as nat, row as int, 0));
                }
                column = column + 1;
            }
            let ghost out_before_newline: Seq<char> = out@;
            out.append("\n");
            proof {
                reveal_strlit("\n");
                assert("\n"@ =~= seq!['\n']);
                assert(spec_row_chars(self.cells@, w as nat, row as int, w as nat) =~= seq![
                    '\n',
                ]);
                assert(out@ =~= out_at_row + spec_row_chars(self.cells@, w as nat, row as int, 0));
                assert(out@ + spec_render(self.cells@, w as nat, h as nat, (row + 1) as nat)
                    =~= spec_render(self.cells@, w as nat, h as nat, 0));
            }
            row = row + 1;
        }
        proof {
            assert(out@ + spec_render(self.cells@, w as nat, h as nat, h as nat) =~= out@);
        }
        out
    }
}

} // verus!
