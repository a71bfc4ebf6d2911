//! Reading back what was written: the text of a board describes that board.

use crate::arith::lemma_index_in_bounds;
use crate::grid::Grid;
use crate::text::{
    byte_len, closed_rows, first_stray, glyph, glyph_cells, is_symbol, open_row, parse, push_row,
    ragged, render, render_row, render_rows, text_rows, utf8_width,
};
use vstd::prelude::*;

verus! {

/// Characters of one byte each take as many bytes as they are.
pub proof fn lemma_byte_len_plain(row: Seq<char>)
    requires
        forall|i: int| 0 <= i < row.len() ==> utf8_width(#[trigger] row[i]) == 1,
    ensures
        byte_len(row) == row.len(),
    decreases row.len(),
{
    if row.len() > 0 {
        lemma_byte_len_plain(row.drop_last());
    }
}

/// Text without a line break, put behind other text, lengthens the last
/// line and changes nothing else.
pub proof fn lemma_append_row(text: Seq<char>, row: Seq<char>)
    requires
        forall|i: int| 0 <= i < row.len() ==> #[trigger] row[i] == '@' || row[i] == '.',
    ensures
        open_row(text + row) == open_row(text) + row,
        closed_rows(text + row) == closed_rows(text),
        first_stray(text + row) == first_stray(text),
        glyph_cells(text + row) == glyph_cells(text) + Seq::new(row.len(), |i: int| row[i] == '@'),
    decreases row.len(),
{
    if row.len() == 0 {
        assert(text + row =~= text);
        assert(open_row(text) + row =~= open_row(text));
        assert(glyph_cells(text) + Seq::new(row.len(), |i: int| row[i] == '@') =~= glyph_cells(
            text,
        ));
    } else {
        let init = row.drop_last();
        lemma_append_row(text, init);
        assert((text + row).drop_last() =~= text + init);
        assert((text + row).last() == row.last());
        assert(row[row.len() - 1] == '@' || row[row.len() - 1] == '.');
        assert(is_symbol(row.last()));
        assert((open_row(text) + init).push(row.last()) =~= open_row(text) + row);
        assert((glyph_cells(text) + Seq::new(init.len(), |i: int| init[i] == '@')).push(
            row.last() == '@',
        ) =~= glyph_cells(text) + Seq::new(row.len(), |i: int| row[i] == '@'));
    }
}

/// What the text of the first `n` rows of a board is made of: its lines are
/// the rows, its cells are the cells of those rows, and every character stands
/// for a cell or ends a line.
pub proof fn lemma_scan_render(g: Grid, n: nat)
    requires
        g.wf(),
        g.cols > 0,
        1 <= n <= g.rows,
    ensures
        closed_rows(render_rows(g, n)) == Seq::new((n - 1) as nat, |y: int| render_row(g, y)),
        open_row(render_rows(g, n)) == render_row(g, n - 1),
        first_stray(render_rows(g, n)) is None,
        glyph_cells(render_rows(g, n)) == g.cells.take((n * g.cols) as int),
        n * g.cols <= g.cells.len(),
    decreases n,
{
    let row = render_row(g, n - 1);
    assert(n * g.cols <= g.rows * g.cols && (n - 1) * g.cols + g.cols == n * g.cols)
        by (nonlinear_arith)
        requires
            1 <= n <= g.rows,
    ;
    assert forall|x: int| 0 <= x < g.cols implies (#[trigger] row[x] == '@') == g.cells[(n - 1)
        * g.cols + x] && 0 <= (n - 1) * g.cols + x < g.cells.len() by {
        lemma_index_in_bounds(x, n - 1, g.rows as int, g.cols as int);
    }
    let bits = Seq::new(row.len(), |i: int| row[i] == '@');
    if n == 1 {
        let nothing = Seq::<char>::empty();
        lemma_append_row(nothing, row);
        assert(nothing + row =~= row);
        assert(open_row(nothing) + row =~= row);
        assert(closed_rows(nothing) =~= Seq::new(0, |y: int| render_row(g, y)));
        assert(glyph_cells(nothing) + bits =~= g.cells.take((n * g.cols) as int));
    } else {
        let before = render_rows(g, (n - 1) as nat);
        lemma_scan_render(g, (n - 1) as nat);
        let broken = before + seq!['\n'];
        assert(broken.drop_last() =~= before);
        assert(broken.last() == '\n');
        assert(render_row(g, n - 2).len() > 0);
        assert(closed_rows(broken) == push_row(closed_rows(before), open_row(before)));
        assert(closed_rows(broken) =~= Seq::new((n - 1) as nat, |y: int| render_row(g, y)));
        assert(is_symbol('\n'));
        lemma_append_row(broken, row);
        assert(open_row(broken) + row =~= row);
        assert((n - 2) * g.cols + g.cols == (n - 1) * g.cols) by (nonlinear_arith);
        assert(glyph_cells(broken) + bits =~= g.cells.take((n * g.cols) as int));
    }
}

/// The text of a board describes that board.  This holds of every board at
/// generation 0 under the classic rule that has cells, or neither rows nor
/// columns: the text of a board without cells is empty or made of line
/// breaks, and describes the board without rows and columns.
pub proof fn lemma_text_round_trip(g: Grid)
    requires
        g.wf(),
        g.generation == 0,
        g.has_default_rule(),
        (g.rows > 0 && g.cols > 0) || (g.rows == 0 && g.cols == 0),
    ensures
        parse(render(g)) == Ok::<Grid, Seq<char>>(g),
{
    let text = render(g);
    let rows = text_rows(text);
    if g.rows == 0 {
        assert(rows =~= Seq::<Seq<char>>::empty());
        assert(glyph_cells(text) =~= g.cells);
    } else {
        lemma_scan_render(g, g.rows);
        assert(rows =~= Seq::new(g.rows, |y: int| render_row(g, y)));
        assert forall|k: int| 0 <= k < rows.len() implies byte_len(#[trigger] rows[k])
            == g.cols by {
            assert(rows[k] == render_row(g, k));
            assert forall|i: int| 0 <= i < rows[k].len() implies utf8_width(
                #[trigger] rows[k][i],
            ) == 1 by {
                let c = rows[k][i];
                assert(c == '@' || c == '.');
            }
            lemma_byte_len_plain(rows[k]);
        }
        assert(!ragged(rows));
        assert(g.cells.take((g.rows * g.cols) as int) =~= g.cells);
        assert(rows[0].len() == g.cols);
    }
    assert(!ragged(rows));
    let read = parse(text)->Ok_0;
    assert(read.cells == g.cells);
    assert(read.rows == g.rows && read.cols == g.cols);
    assert(read == g);
}

} // verus!
