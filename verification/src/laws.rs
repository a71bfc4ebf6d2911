//! What holds of every board, stated over the model and proved.

use crate::grid::Grid;
use crate::parallel::{chunk_count, chunk_len, lemma_chunk_len_bounds, lemma_join_all_chunks};
use vstd::prelude::*;

verus! {

/// Every position outside the rectangle is dead.
pub proof fn lemma_outside_is_dead(g: Grid, x: int, y: int)
    requires
        !(0 <= x < g.cols && 0 <= y < g.rows),
    ensures
        !g.cell(x, y),
        g.live(x, y) == 0,
{
}

/// The parallel stepper and the serial one give the same cells, index by
/// index, and the same generation, however many workers share the cells and
/// whatever the board is.
pub proof fn lemma_parallel_is_serial(g: Grid, workers: nat)
    ensures
        g.stepped_in_chunks(workers) == g.stepped(),
        g.stepped_in_chunks(workers).cells == g.next_cells(),
        g.stepped_in_chunks(workers).cells.len() == g.cells.len(),
        forall|i: int|
            0 <= i < g.cells.len() ==> #[trigger] g.stepped_in_chunks(workers).cells[i]
                == g.stepped().cells[i],
        g.stepped_in_chunks(workers).generation == g.stepped().generation,
{
    let size = chunk_len(g.cells.len(), workers);
    lemma_chunk_len_bounds(g.cells.len(), workers);
    lemma_join_all_chunks(g.next_cells(), size);
    assert(g.next_cells().len() == g.cells.len());
}

/// A step keeps size and rule and adds one to the generation, so two steps
/// add two.
pub proof fn lemma_step_counts_generations(g: Grid)
    ensures
        g.stepped().generation == g.generation + 1,
        g.stepped().stepped().generation == g.generation + 2,
        g.stepped().rows == g.rows && g.stepped().cols == g.cols,
        g.stepped().born == g.born && g.stepped().survive == g.survive,
        g.wf() ==> g.stepped().wf(),
{
}

/// Toggling a cell, padding and putting in other cells leave generation and
/// rule as they are, whatever the board, the cell and the margins.  Clearing
/// keeps the rule and sets the generation to 0, which leaves it as it is on
/// a board that no step has touched.
pub proof fn lemma_edits_keep_generation(
    g: Grid,
    x: int,
    y: int,
    top: int,
    right: int,
    bottom: int,
    left: int,
    cells: Seq<bool>,
)
    ensures
        g.toggled(x, y).generation == g.generation,
        g.toggled(x, y).born == g.born && g.toggled(x, y).survive == g.survive,
        g.padded(top, right, bottom, left).generation == g.generation,
        g.padded(top, right, bottom, left).born == g.born,
        g.padded(top, right, bottom, left).survive == g.survive,
        g.with_cells(cells).generation == g.generation,
        g.with_cells(cells).born == g.born && g.with_cells(cells).survive == g.survive,
        g.cleared().generation == 0,
        g.cleared().born == g.born && g.cleared().survive == g.survive,
        g.generation == 0 ==> g.cleared().generation == g.generation,
{
}

/// Toggling the same cell twice gives the board back, and toggling a cell
/// that the board does not have changes nothing.
pub proof fn lemma_toggle_twice(g: Grid, x: int, y: int)
    requires
        g.wf(),
    ensures
        g.toggled(x, y).toggled(x, y) == g,
        !(0 <= x < g.cols && 0 <= y < g.rows) ==> g.toggled(x, y) == g,
{
    if 0 <= x < g.cols && 0 <= y < g.rows {
        crate::arith::lemma_index_in_bounds(x, y, g.rows as int, g.cols as int);
        let once = g.toggled(x, y);
        assert(once.toggled(x, y).cells =~= g.cells);
    }
}

/// Padding by no margin at all changes nothing.
pub proof fn lemma_pad_nothing(g: Grid)
    requires
        g.wf(),
    ensures
        g.padded(0, 0, 0, 0) == g,
{
    let same = g.padded(0, 0, 0, 0);
    assert forall|j: int| 0 <= j < g.cells.len() implies same.cells[j] == g.cells[j] by {
        crate::arith::lemma_index_position(j, g.rows as int, g.cols as int);
    }
    assert(same.cells =~= g.cells);
}

/// Margins that were added can be taken away again: padding by margins that
/// are not negative, then by their negatives, gives the board back.
pub proof fn lemma_pad_then_crop(g: Grid, top: int, right: int, bottom: int, left: int)
    requires
        g.wf(),
        top >= 0,
        right >= 0,
        bottom >= 0,
        left >= 0,
    ensures
        g.padded(top, right, bottom, left).padded(-top, -right, -bottom, -left) == g,
{
    let wide = g.padded(top, right, bottom, left);
    let back = wide.padded(-top, -right, -bottom, -left);
    assert(back.rows == g.rows && back.cols == g.cols);
    assert(back.cells.len() == g.cells.len());
    assert forall|j: int| 0 <= j < g.cells.len() implies back.cells[j] == g.cells[j] by {
        crate::arith::lemma_index_position(j, g.rows as int, g.cols as int);
        let x = j % (g.cols as int) + left;
        let y = j / (g.cols as int) + top;
        crate::arith::lemma_index_in_bounds(x, y, wide.rows as int, wide.cols as int);
        crate::arith::lemma_index_split(x, y, wide.cols as int);
    }
    assert(back.cells =~= g.cells);
}

} // verus!
