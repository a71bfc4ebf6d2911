//! Facts about row-major indexing that the default solver cannot see.

use vstd::prelude::*;

verus! {

/// A position inside a rectangle has an index inside its cell sequence.
pub proof fn lemma_index_in_bounds(x: int, y: int, rows: int, cols: int)
    by (nonlinear_arith)
    requires
        0 <= x < cols,
        0 <= y < rows,
    ensures
        0 <= y * cols + x < rows * cols,
{
}

/// Row and column are recovered from a row-major index.
pub proof fn lemma_index_split(x: int, y: int, cols: int)
    by (nonlinear_arith)
    requires
        0 <= x < cols,
        0 <= y,
    ensures
        (y * cols + x) % cols == x,
        (y * cols + x) / cols == y,
{
}

/// An index inside the cell sequence names a position inside the rectangle.
pub proof fn lemma_index_position(i: int, rows: int, cols: int)
    by (nonlinear_arith)
    requires
        0 <= i < rows * cols,
        0 <= rows,
        0 <= cols,
    ensures
        0 < cols,
        0 <= i % cols < cols,
        0 <= i / cols < rows,
        (i / cols) * cols + i % cols == i,
{
}

} // verus!
