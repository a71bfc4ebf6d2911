//! The mathematical model of a board: a rectangle of cells, the rule that
//! governs them, and a generation counter.  Every contract of the executable
//! [`Board`](crate::board::Board) is stated over a `Grid`.

use vstd::prelude::*;

verus! {

/// Neighbour counts at which a dead cell comes alive under the classic rule.
pub open spec fn default_born() -> Seq<usize> {
    seq![3usize]
}

/// Neighbour counts at which a live cell stays alive under the classic rule.
pub open spec fn default_survive() -> Seq<usize> {
    seq![2usize, 3usize]
}

/// Number of live cells in a sequence of cells.
pub open spec fn count_live(cells: Seq<bool>) -> nat
    decreases cells.len(),
{
    if cells.len() == 0 {
        0
    } else {
        count_live(cells.drop_last()) + if cells.last() {
            1nat
        } else {
            0nat
        }
    }
}

/// The live cells of eight, one by one.
pub proof fn lemma_count_eight(cells: Seq<bool>)
    requires
        cells.len() == 8,
    ensures
        count_live(cells) == (if cells[0] { 1nat } else { 0 }) + (if cells[1] { 1nat } else { 0 })
            + (if cells[2] { 1nat } else { 0 }) + (if cells[3] { 1nat } else { 0 })
            + (if cells[4] { 1nat } else { 0 }) + (if cells[5] { 1nat } else { 0 })
            + (if cells[6] { 1nat } else { 0 }) + (if cells[7] { 1nat } else { 0 }),
{
    reveal_with_fuel(count_live, 9);
    let s7 = cells.drop_last();
    let s6 = s7.drop_last();
    let s5 = s6.drop_last();
    let s4 = s5.drop_last();
    let s3 = s4.drop_last();
    let s2 = s3.drop_last();
    let s1 = s2.drop_last();
    let s0 = s1.drop_last();
    assert(s0.len() == 0);
}

/// Dead cells count nothing.
pub proof fn lemma_count_dead(cells: Seq<bool>)
    requires
        forall|i: int| 0 <= i < cells.len() ==> !cells[i],
    ensures
        count_live(cells) == 0,
    decreases cells.len(),
{
    if cells.len() > 0 {
        lemma_count_dead(cells.drop_last());
    }
}

/// A board as a mathematical value.  Cells are stored row by row: the cell in
/// column `x` of row `y` is `cells[y * cols + x]`.
pub struct Grid {
    pub rows: nat,
    pub cols: nat,
    pub cells: Seq<bool>,
    pub born: Seq<usize>,
    pub survive: Seq<usize>,
    pub generation: nat,
}

impl Grid {
    /// There is exactly one cell for every position of the rectangle.
    pub open spec fn wf(self) -> bool {
        self.cells.len() == self.rows * self.cols
    }

    /// The rule is the classic one: born on 3, survive on 2 or 3.
    pub open spec fn has_default_rule(self) -> bool {
        self.born == default_born() && self.survive == default_survive()
    }

    /// A grid of the given size with every cell dead, at generation 0.
    pub open spec fn empty(rows: nat, cols: nat, born: Seq<usize>, survive: Seq<usize>) -> Grid {
        Grid { rows, cols, cells: Seq::new(rows * cols, |i: int| false), born, survive, generation: 0 }
    }

    /// Whether the cell in column `x` of row `y` is alive.  Every position
    /// outside the rectangle counts as dead.
    pub open spec fn cell(self, x: int, y: int) -> bool {
        0 <= x < self.cols && 0 <= y < self.rows && self.cells[y * self.cols + x]
    }

    /// 1 for a live cell, 0 for a dead one.
    pub open spec fn live(self, x: int, y: int) -> nat {
        if self.cell(x, y) {
            1
        } else {
            0
        }
    }

    /// Number of live cells among the eight that surround `(x, y)`.
    pub open spec fn neighbors(self, x: int, y: int) -> nat {
        self.live(x - 1, y - 1) + self.live(x, y - 1) + self.live(x + 1, y - 1)
            + self.live(x - 1, y) + self.live(x + 1, y)
            + self.live(x - 1, y + 1) + self.live(x, y + 1) + self.live(x + 1, y + 1)
    }

    /// State of the cell at `(x, y)` in the next generation.
    pub open spec fn successor(self, x: int, y: int) -> bool {
        if self.cell(x, y) {
            self.survive.contains(self.neighbors(x, y) as usize)
        } else {
            self.born.contains(self.neighbors(x, y) as usize)
        }
    }

    /// State in the next generation of the cell stored at index `i`.
    pub open spec fn successor_at(self, i: int) -> bool {
        self.successor(i % (self.cols as int), i / (self.cols as int))
    }

    /// Every cell's state in the next generation, each computed from this
    /// generation alone.
    pub open spec fn next_cells(self) -> Seq<bool> {
        Seq::new(self.cells.len(), |i: int| self.successor_at(i))
    }

    /// The same board holding other cells.
    pub open spec fn with_cells(self, cells: Seq<bool>) -> Grid {
        Grid { cells, ..self }
    }

    /// The next generation.
    pub open spec fn stepped(self) -> Grid {
        Grid { cells: self.next_cells(), generation: self.generation + 1, ..self }
    }

    /// The board with the cell in column `x` of row `y` flipped; the board
    /// itself where there is no such cell.
    pub open spec fn toggled(self, x: int, y: int) -> Grid {
        if 0 <= x < self.cols && 0 <= y < self.rows {
            let i = y * self.cols + x;
            Grid { cells: self.cells.update(i, !self.cells[i]), ..self }
        } else {
            self
        }
    }

    /// A board of the same size and rule with every cell dead, back at
    /// generation 0.
    pub open spec fn cleared(self) -> Grid {
        Grid::empty(self.rows, self.cols, self.born, self.survive)
    }

    /// Height of the board after padding.
    pub open spec fn padded_rows(self, top: int, bottom: int) -> nat {
        if top + self.rows + bottom > 0 {
            (top + self.rows + bottom) as nat
        } else {
            0
        }
    }

    /// Width of the board after padding.
    pub open spec fn padded_cols(self, right: int, left: int) -> nat {
        if left + self.cols + right > 0 {
            (left + self.cols + right) as nat
        } else {
            0
        }
    }

    /// The padded board is no larger than a machine can hold: its height,
    /// its width and its number of cells are at most `usize::MAX`.
    pub open spec fn pad_fits(self, top: int, right: int, bottom: int, left: int) -> bool {
        &&& self.padded_rows(top, bottom) <= usize::MAX
        &&& self.padded_cols(right, left) <= usize::MAX
        &&& self.padded_rows(top, bottom) * self.padded_cols(right, left) <= usize::MAX
    }

    /// The board moved `top` rows down and `left` columns right inside a
    /// rectangle of the padded size.  What falls outside is dropped, what is
    /// uncovered is dead.
    pub open spec fn padded(self, top: int, right: int, bottom: int, left: int) -> Grid {
        let rows = self.padded_rows(top, bottom);
        let cols = self.padded_cols(right, left);
        Grid {
            rows,
            cols,
            cells: Seq::new(
                rows * cols,
                |i: int| self.cell(i % (cols as int) - left, i / (cols as int) - top),
            ),
            ..self
        }
    }

    /// Number of live cells.
    pub open spec fn population(self) -> nat {
        count_live(self.cells)
    }
}

} // verus!
