//! Counting live cells: margins of dead cells add none.

use crate::arith::{lemma_index_in_bounds, lemma_index_split};
use crate::grid::{count_live, lemma_count_dead, Grid};
use vstd::prelude::*;

verus! {

/// The live cells of two sequences, one behind the other, are those of the
/// first and those of the second.
pub proof fn lemma_count_concat(a: Seq<bool>, b: Seq<bool>)
    ensures
        count_live(a + b) == count_live(a) + count_live(b),
    decreases b.len(),
{
    if b.len() == 0 {
        assert(a + b =~= a);
    } else {
        lemma_count_concat(a, b.drop_last());
        assert((a + b).drop_last() =~= a + b.drop_last());
        assert((a + b).last() == b.last());
    }
}

/// Number of rows of the board that lie within the first `k` rows of the
/// board padded by `top` rows.
pub open spec fn rows_within(g: Grid, top: int, k: int) -> int {
    if k <= top {
        0
    } else if k - top >= g.rows {
        g.rows as int
    } else {
        k - top
    }
}

/// The first `k` rows of a board with margins added hold as many live cells
/// as the rows of the board that lie within them.
pub proof fn lemma_padded_rows_population(
    g: Grid,
    top: int,
    right: int,
    bottom: int,
    left: int,
    k: nat,
)
    requires
        g.wf(),
        top >= 0,
        right >= 0,
        bottom >= 0,
        left >= 0,
        g.rows > 0,
        g.cols > 0,
        k <= g.padded(top, right, bottom, left).rows,
    ensures
        0 <= k * g.padded(top, right, bottom, left).cols <= g.padded(
            top,
            right,
            bottom,
            left,
        ).cells.len(),
        0 <= rows_within(g, top, k as int) * g.cols <= g.cells.len(),
        count_live(
            g.padded(top, right, bottom, left).cells.take(
                (k * g.padded(top, right, bottom, left).cols) as int,
            ),
        ) == count_live(g.cells.take(rows_within(g, top, k as int) * g.cols)),
    decreases k,
{
    let wide = g.padded(top, right, bottom, left);
    let w = wide.cols as int;
    let c = g.cols as int;
    let m = rows_within(g, top, k as int);
    assert(0 <= k * w <= wide.rows * w && 0 <= m * c <= g.rows * c) by (nonlinear_arith)
        requires
            0 <= k <= wide.rows,
            0 <= m <= g.rows,
            w >= 0,
            c >= 0,
    ;
    if k == 0 {
        assert(k * w == 0 && m * c == 0) by (nonlinear_arith)
            requires
                k == 0,
                m == 0,
        ;
        assert(wide.cells.take(0) =~= Seq::<bool>::empty());
        assert(g.cells.take(0) =~= Seq::<bool>::empty());
    } else {
        let r = k - 1;
        let before = rows_within(g, top, r);
        lemma_padded_rows_population(g, top, right, bottom, left, r as nat);
        assert(k * w == r * w + w) by (nonlinear_arith)
            requires
                k == r + 1,
        ;
        let row = wide.cells.subrange(r * w, k * w);
        assert(wide.cells.take(k * w) =~= wide.cells.take(r * w) + row);
        lemma_count_concat(wide.cells.take(r * w), row);
        assert forall|j: int| 0 <= j < w implies #[trigger] row[j] == g.cell(j - left, r - top) by {
            lemma_index_in_bounds(j, r, wide.rows as int, w);
            lemma_index_split(j, r, w);
        }
        if r < top || r - top >= g.rows {
            assert forall|j: int| 0 <= j < row.len() implies !row[j] by {
                assert(row[j] == g.cell(j - left, r - top));
            }
            lemma_count_dead(row);
            assert(m == before);
        } else {
            let y = r - top;
            assert(m == before + 1 && before == y);
            assert(m * c == y * c + c && 0 <= y * c && m * c <= g.rows * c) by (nonlinear_arith)
                requires
                    m == y + 1,
                    0 <= y,
                    m <= g.rows,
                    c >= 0,
            ;
            let cells = g.cells.subrange(y * c, m * c);
            assert(g.cells.take(m * c) =~= g.cells.take(y * c) + cells);
            lemma_count_concat(g.cells.take(y * c), cells);
            let lead = row.take(left);
            let rest = row.skip(left);
            let body = rest.take(c);
            let tail = rest.skip(c);
            assert(row =~= lead + rest);
            assert(rest =~= body + tail);
            assert forall|x: int| 0 <= x < c implies #[trigger] body[x] == cells[x] by {
                assert(body[x] == row[left + x]);
                lemma_index_in_bounds(x, y, g.rows as int, c);
            }
            assert(body =~= cells);
            assert forall|j: int| 0 <= j < lead.len() implies !lead[j] by {
                assert(lead[j] == row[j]);
            }
            assert forall|j: int| 0 <= j < tail.len() implies !tail[j] by {
                assert(tail[j] == row[left + c + j]);
            }
            lemma_count_dead(lead);
            lemma_count_dead(tail);
            lemma_count_concat(body, tail);
            lemma_count_concat(lead, rest);
        }
    }
}

/// Margins that are not negative add no live cell and take none away.
pub proof fn lemma_pad_keeps_population(g: Grid, top: int, right: int, bottom: int, left: int)
    requires
        g.wf(),
        top >= 0,
        right >= 0,
        bottom >= 0,
        left >= 0,
    ensures
        g.padded(top, right, bottom, left).population() == g.population(),
{
    let wide = g.padded(top, right, bottom, left);
    if g.rows == 0 || g.cols == 0 {
        assert(g.cells.len() == 0) by (nonlinear_arith)
            requires
                g.cells.len() == g.rows * g.cols,
                g.rows == 0 || g.cols == 0,
        ;
        lemma_count_dead(wide.cells);
    } else {
        lemma_padded_rows_population(g, top, right, bottom, left, wide.rows);
        assert(wide.cells.take((wide.rows * wide.cols) as int) =~= wide.cells);
        assert(rows_within(g, top, wide.rows as int) == g.rows);
        assert(g.cells.take((g.rows * g.cols) as int) =~= g.cells);
    }
}

} // verus!
