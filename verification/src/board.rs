//! The executable board.

use crate::arith::{lemma_index_in_bounds, lemma_index_position, lemma_index_split};
use crate::census::lemma_pad_keeps_population;
use crate::grid::{
    count_live, default_born, default_survive, lemma_count_dead, lemma_count_eight, Grid,
};
use rand::distributions::Standard;
use rand::{thread_rng, Rng};
use std::sync::Arc;
use vstd::prelude::*;

verus! {

/// A rectangular board of cells with its rule and generation counter.
///
/// A board is never changed in place: every operation returns a new board.
/// The rule is shared between a board and the boards derived from it.
#[derive(Debug, PartialEq, Eq)]
pub struct Board {
    board: Vec<bool>,
    survive: Arc<Vec<usize>>,
    born: Arc<Vec<usize>>,
    rows: usize,
    cols: usize,
    generation: usize,
}

impl View for Board {
    type V = Grid;

    closed spec fn view(&self) -> Grid {
        Grid {
            rows: self.rows as nat,
            cols: self.cols as nat,
            cells: self.board@,
            born: self.born@,
            survive: self.survive@,
            generation: self.generation as nat,
        }
    }
}

/// `Arc::clone`: the new handle shares the value that `rule` points to.
#[verifier::external_body]
fn share(rule: &Arc<Vec<usize>>) -> (shared: Arc<Vec<usize>>)
    ensures
        shared == *rule,
{
    Arc::clone(rule)
}

/// `thread_rng().sample_iter(&Standard)` of `rand`, cut off after `len`
/// values: `len` cells, each drawn by the thread's generator.  Only their
/// number is known.
#[verifier::external_body]
fn random_cells(len: usize) -> (cells: Vec<bool>)
    ensures
        cells@.len() == len,
{
    thread_rng().sample_iter(&Standard).take(len).collect()
}

/// Whether `n` occurs in `counts`.
fn contains(counts: &Vec<usize>, n: usize) -> (found: bool)
    ensures
        found == counts@.contains(n),
{
    let mut i: usize = 0;
    while i < counts.len()
        invariant
            i <= counts@.len(),
            forall|j: int| 0 <= j < i ==> counts@[j] != n,
        decreases counts@.len() - i,
    {
        if counts[i] == n {
            return true;
        }
        i += 1;
    }
    false
}

impl Board {
    #[verifier::type_invariant]
    spec fn inv(&self) -> bool {
        &&& self.board@.len() == self.rows * self.cols
        &&& self.rows * self.cols <= usize::MAX
    }

    /// A board of dead cells under the classic rule, at generation 0.
    pub fn new(rows: usize, cols: usize) -> (brd: Board)
        requires
            rows * cols <= usize::MAX,
        ensures
            brd@ == Grid::empty(rows as nat, cols as nat, default_born(), default_survive()),
            brd@.wf(),
    {
        let born: Vec<usize> = vec![3];
        let survive: Vec<usize> = vec![2, 3];
        assert(born@ =~= default_born());
        assert(survive@ =~= default_survive());
        Board::new_with_custom_rules(rows, cols, born, survive)
    }

    /// A board of dead cells under the given rule, at generation 0.
    pub fn new_with_custom_rules(
        rows: usize,
        cols: usize,
        born: Vec<usize>,
        survive: Vec<usize>,
    ) -> (brd: Board)
        requires
            rows * cols <= usize::MAX,
        ensures
            brd@ == Grid::empty(rows as nat, cols as nat, born@, survive@),
            brd@.wf(),
    {
        let new_board: Vec<bool> = vec![false; rows * cols];
        assert(new_board@ =~= Seq::new((rows * cols) as nat, |i: int| false));
        Board {
            board: new_board,
            born: Arc::new(born),
            survive: Arc::new(survive),
            rows,
            cols,
            generation: 0,
        }
    }

    /// Number of rows.
    pub fn rows(&self) -> (n: usize)
        ensures
            n == self@.rows,
    {
        self.rows
    }

    /// Number of columns.
    pub fn cols(&self) -> (n: usize)
        ensures
            n == self@.cols,
    {
        self.cols
    }

    /// Number of rule-based transitions behind this board.
    pub fn generation(&self) -> (n: usize)
        ensures
            n == self@.generation,
    {
        self.generation
    }

    /// Number of cells.
    pub fn len(&self) -> (n: usize)
        ensures
            n == self@.cells.len(),
            n == self@.rows * self@.cols,
            self@.wf(),
    {
        proof {
            use_type_invariant(self);
        }
        self.board.len()
    }

    /// Whether the cell in column `x` of row `y` is alive.  A position outside
    /// the board is dead.
    pub fn cell_live(&self, x: usize, y: usize) -> (alive: bool)
        ensures
            alive == self@.cell(x as int, y as int),
            x >= self@.cols || y >= self@.rows ==> !alive,
    {
        proof {
            use_type_invariant(self);
        }
        if x >= self.cols || y >= self.rows {
            false
        } else {
            proof {
                lemma_index_in_bounds(x as int, y as int, self.rows as int, self.cols as int);
            }
            self.board[y * self.cols + x]
        }
    }

    /// Whether the cell at signed coordinates is alive.
    fn cell_live_at(&self, x: i128, y: i128) -> (alive: bool)
        ensures
            alive == self@.cell(x as int, y as int),
    {
        if 0 <= x && x <= usize::MAX as i128 && 0 <= y && y <= usize::MAX as i128 {
            self.cell_live(x as usize, y as usize)
        } else {
            false
        }
    }

    /// Number of live cells among the eight that surround `(x, y)`.
    pub fn living_neighbors(&self, x: usize, y: usize) -> (count: usize)
        ensures
            count == self@.neighbors(x as int, y as int),
            count <= 8,
    {
        let (x, y) = (x as i128, y as i128);
        let neighbors = [
            self.cell_live_at(x - 1, y - 1),
            self.cell_live_at(x, y - 1),
            self.cell_live_at(x + 1, y - 1),
            self.cell_live_at(x - 1, y),
            self.cell_live_at(x + 1, y),
            self.cell_live_at(x - 1, y + 1),
            self.cell_live_at(x, y + 1),
            self.cell_live_at(x + 1, y + 1),
        ];
        let ghost around = neighbors@;
        let mut count: usize = 0;
        let mut i: usize = 0;
        while i < 8
            invariant
                i <= 8,
                neighbors@ == around,
                around.len() == 8,
                count == count_live(around.take(i as int)),
                count <= i,
            decreases 8 - i,
        {
            assert(around.take(i + 1).drop_last() =~= around.take(i as int));
            if neighbors[i] {
                count += 1;
            }
            i += 1;
        }
        proof {
            assert(around.take(8) =~= around);
            lemma_count_eight(around);
        }
        count
    }

    /// State of the cell at `(x, y)` in the next generation.
    pub fn successor(&self, x: usize, y: usize) -> (alive: bool)
        ensures
            alive == self@.successor(x as int, y as int),
    {
        let neighbors = self.living_neighbors(x, y);
        if self.cell_live(x, y) {
            contains(&self.survive, neighbors)
        } else {
            contains(&self.born, neighbors)
        }
    }

    /// State in the next generation of the cell stored at index `cell`.
    pub fn successor_cell(&self, cell: usize) -> (alive: bool)
        requires
            cell < self@.cells.len(),
        ensures
            alive == self@.successor_at(cell as int),
    {
        proof {
            use_type_invariant(self);
            lemma_index_position(cell as int, self.rows as int, self.cols as int);
        }
        self.successor(cell % self.cols, cell / self.cols)
    }

    /// A board of the same size, rule and generation that holds `new_board`.
    pub fn next_board(&self, new_board: Vec<bool>) -> (brd: Board)
        requires
            new_board@.len() == self@.cells.len(),
        ensures
            brd@ == self@.with_cells(new_board@),
            brd@.wf(),
    {
        proof {
            use_type_invariant(self);
        }
        self.resized_next_board(new_board, self.rows, self.cols)
    }

    /// A board of the given size that holds `new_board`, with the rule and
    /// generation of this one.
    pub fn resized_next_board(&self, new_board: Vec<bool>, rows: usize, cols: usize) -> (brd:
        Board)
        requires
            new_board@.len() == rows * cols,
        ensures
            brd@ == (Grid { rows: rows as nat, cols: cols as nat, cells: new_board@, ..self@ }),
            brd@.wf(),
    {
        assert(rows * cols <= usize::MAX) by {
            assert(new_board@.len() == new_board.len());
        }
        Board {
            board: new_board,
            born: share(&self.born),
            survive: share(&self.survive),
            rows,
            cols,
            generation: self.generation,
        }
    }

    /// A board of the same size and rule that holds `new_board`, one
    /// generation on.
    pub fn next_generation_board(&self, new_board: Vec<bool>) -> (brd: Board)
        requires
            new_board@.len() == self@.cells.len(),
            self@.generation < usize::MAX,
        ensures
            brd@ == (Grid { generation: self@.generation + 1, ..self@.with_cells(new_board@) }),
            brd@.wf(),
    {
        proof {
            use_type_invariant(self);
        }
        Board {
            board: new_board,
            born: share(&self.born),
            survive: share(&self.survive),
            rows: self.rows,
            cols: self.cols,
            generation: self.generation + 1,
        }
    }

    /// A board of the same size, rule and generation whose cells are drawn at
    /// random, each alive or dead with equal chance.
    pub fn random(&self) -> (brd: Board)
        ensures
            brd@ == self@.with_cells(brd@.cells),
            brd@.cells.len() == self@.cells.len(),
            brd@.wf(),
            brd@.generation == self@.generation,
    {
        let brd = random_cells(self.len());
        self.next_board(brd)
    }

    /// The cells of the next generation, computed cell after cell.  Every
    /// board has them, whatever its generation.
    pub fn serial_next_cells(&self) -> (cells: Vec<bool>)
        ensures
            cells@ == self@.next_cells(),
            cells@.len() == self@.cells.len(),
    {
        let len = self.len();
        let mut new_brd: Vec<bool> = Vec::with_capacity(len);
        let mut cell: usize = 0;
        while cell < len
            invariant
                len == self@.cells.len(),
                cell <= len,
                new_brd@.len() == cell,
                forall|i: int| 0 <= i < cell ==> new_brd@[i] == self@.successor_at(i),
            decreases len - cell,
        {
            new_brd.push(self.successor_cell(cell));
            cell += 1;
        }
        assert(new_brd@ =~= self@.next_cells());
        new_brd
    }

    /// The next generation, computed cell after cell.
    pub fn serial_next_generation(&self) -> (next: Board)
        requires
            self@.generation < usize::MAX,
        ensures
            next@ == self@.stepped(),
            next@.wf(),
    {
        let new_brd = self.serial_next_cells();
        self.next_generation_board(new_brd)
    }

    /// The board with the cell in column `x` of row `y` flipped.  Where the
    /// board has no such cell the result equals the board.
    pub fn toggle(&self, x: usize, y: usize) -> (brd: Board)
        ensures
            brd@ == self@.toggled(x as int, y as int),
            brd@.wf(),
            brd@.generation == self@.generation,
            x >= self@.cols || y >= self@.rows ==> brd@ == self@,
    {
        proof {
            use_type_invariant(self);
        }
        if x < self.cols && y < self.rows {
            proof {
                lemma_index_in_bounds(x as int, y as int, self.rows as int, self.cols as int);
            }
            let mut board = self.board.clone();
            let i = y * self.cols + x;
            let flipped = !board[i];
            board.set(i, flipped);
            self.next_board(board)
        } else {
            self.clone()
        }
    }

    /// A board of the same size and rule with every cell dead, back at
    /// generation 0.
    pub fn clear(&self) -> (brd: Board)
        ensures
            brd@ == self@.cleared(),
            brd@.wf(),
            brd@.generation == 0,
            brd@.population() == 0,
    {
        proof {
            use_type_invariant(self);
        }
        let cells: Vec<bool> = vec![false; self.rows * self.cols];
        assert(cells@ =~= self@.cleared().cells);
        proof {
            lemma_count_dead(cells@);
        }
        Board {
            board: cells,
            born: share(&self.born),
            survive: share(&self.survive),
            rows: self.rows,
            cols: self.cols,
            generation: 0,
        }
    }

    /// Whether the board padded by these margins can be held: its height, its
    /// width and its number of cells are at most `usize::MAX`.
    pub fn pad_fits(&self, top: isize, right: isize, bottom: isize, left: isize) -> (fits: bool)
        ensures
            fits == self@.pad_fits(top as int, right as int, bottom as int, left as int),
    {
        let tall: i128 = top as i128 + self.rows as i128 + bottom as i128;
        let wide: i128 = left as i128 + self.cols as i128 + right as i128;
        let limit: i128 = usize::MAX as i128;
        if tall > limit || wide > limit {
            return false;
        }
        if tall <= 0 || wide <= 0 {
            assert(self@.padded_rows(top as int, bottom as int) * self@.padded_cols(
                right as int,
                left as int,
            ) == 0) by (nonlinear_arith)
                requires
                    self@.padded_rows(top as int, bottom as int) == 0 || self@.padded_cols(
                        right as int,
                        left as int,
                    ) == 0,
            ;
            return true;
        }
        let rows: u128 = tall as u128;
        let cols: u128 = wide as u128;
        assert(rows * cols <= u128::MAX) by (nonlinear_arith)
            requires
                rows <= 0xffff_ffff_ffff_ffff,
                cols <= 0xffff_ffff_ffff_ffff,
        ;
        rows * cols <= usize::MAX as u128
    }

    /// The board resized by the given signed margins.  A positive margin adds
    /// that many dead rows or columns on its side, a negative one removes that
    /// many.  The result has `max(0, top + rows + bottom)` rows and
    /// `max(0, left + cols + right)` columns; rule and generation are kept.
    pub fn pad(&self, top: isize, right: isize, bottom: isize, left: isize) -> (brd: Board)
        requires
            self@.pad_fits(top as int, right as int, bottom as int, left as int),
        ensures
            brd@ == self@.padded(top as int, right as int, bottom as int, left as int),
            brd@.wf(),
            brd@.generation == self@.generation,
            brd@.born == self@.born && brd@.survive == self@.survive,
            top >= 0 && right >= 0 && bottom >= 0 && left >= 0 ==> brd@.population()
                == self@.population(),
    {
        let tall: i128 = top as i128 + self.rows as i128 + bottom as i128;
        let wide: i128 = left as i128 + self.cols as i128 + right as i128;
        let rows: usize = if tall > 0 {
            tall as usize
        } else {
            0
        };
        let cols: usize = if wide > 0 {
            wide as usize
        } else {
            0
        };
        let ghost padded = self@.padded(top as int, right as int, bottom as int, left as int);
        assert(rows == padded.rows && cols == padded.cols);
        let mut dst_cells: Vec<bool> = Vec::with_capacity(rows * cols);
        let mut y: usize = 0;
        while y < rows
            invariant
                y <= rows,
                rows == padded.rows,
                cols == padded.cols,
                rows * cols <= usize::MAX,
                padded == self@.padded(top as int, right as int, bottom as int, left as int),
                dst_cells@.len() == y * cols,
                forall|i: int| 0 <= i < y * cols ==> dst_cells@[i] == padded.cells[i],
            decreases rows - y,
        {
            let mut x: usize = 0;
            while x < cols
                invariant
                    y < rows,
                    x <= cols,
                    rows == padded.rows,
                    cols == padded.cols,
                    rows * cols <= usize::MAX,
                    padded == self@.padded(top as int, right as int, bottom as int, left as int),
                    dst_cells@.len() == y * cols + x,
                    forall|i: int| 0 <= i < y * cols + x ==> dst_cells@[i] == padded.cells[i],
                decreases cols - x,
            {
                proof {
                    lemma_index_in_bounds(x as int, y as int, rows as int, cols as int);
                    lemma_index_split(x as int, y as int, cols as int);
                }
                dst_cells.push(self.cell_live_at(x as i128 - left as i128, y as i128 - top as i128));
                x += 1;
            }
            assert(y * cols + cols == (y + 1) * cols) by (nonlinear_arith);
            y += 1;
        }
        assert(dst_cells@ =~= padded.cells);
        proof {
            use_type_invariant(self);
            if top >= 0 && right >= 0 && bottom >= 0 && left >= 0 {
                lemma_pad_keeps_population(
                    self@,
                    top as int,
                    right as int,
                    bottom as int,
                    left as int,
                );
            }
        }
        self.resized_next_board(dst_cells, rows, cols)
    }

    /// Number of live cells.
    pub fn population(&self) -> (count: usize)
        ensures
            count == self@.population(),
    {
        let mut count: usize = 0;
        let mut i: usize = 0;
        while i < self.board.len()
            invariant
                i <= self.board@.len(),
                count == count_live(self.board@.take(i as int)),
                count <= i,
            decreases self.board@.len() - i,
        {
            assert(self.board@.take(i + 1).drop_last() =~= self.board@.take(i as int));
            if self.board[i] {
                count += 1;
            }
            i += 1;
        }
        assert(self.board@.take(self.board@.len() as int) =~= self.board@);
        count
    }

    /// The cells one after the other, row by row.
    pub fn iter(&self) -> (cells: std::slice::Iter<'_, bool>)
        ensures
            vstd::std_specs::iter::IteratorSpec::remaining(&cells) == self@.cells.as_ref(),
    {
        self.board.iter()
    }

    /// The cells, row by row.
    pub fn cells(&self) -> (cells: &Vec<bool>)
        ensures
            cells@ == self@.cells,
    {
        &self.board
    }
}

impl Clone for Board {
    fn clone(&self) -> (brd: Self)
        ensures
            brd@ == self@,
    {
        proof {
            use_type_invariant(self);
        }
        Board {
            board: self.board.clone(),
            born: share(&self.born),
            survive: share(&self.survive),
            rows: self.rows,
            cols: self.cols,
            generation: self.generation,
        }
    }
}

} // verus!
