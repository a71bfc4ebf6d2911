//! What a board that was read from a text holds: cell `(x, y)` is character
//! `x` of the text's line `y`.

use crate::text::{
    byte_len, closed_rows, first_stray, glyph_cells, is_symbol, lemma_rows_plain_push,
    lemma_total_len_push, open_row, parse, push_row, rows_plain, text_rows, total_len, utf8_width,
};
use vstd::prelude::*;

verus! {

/// The cells that the characters of a row stand for.
pub open spec fn row_bits(row: Seq<char>) -> Seq<bool> {
    Seq::new(row.len(), |x: int| row[x] == '@')
}

/// The cells that rows stand for, row after row.
pub open spec fn rows_bits(rows: Seq<Seq<char>>) -> Seq<bool>
    decreases rows.len(),
{
    if rows.len() == 0 {
        Seq::empty()
    } else {
        rows_bits(rows.drop_last()) + row_bits(rows.last())
    }
}

/// The cells of rows with one more row.
pub proof fn lemma_rows_bits_push(rows: Seq<Seq<char>>, row: Seq<char>)
    ensures
        rows_bits(push_row(rows, row)) == rows_bits(rows) + row_bits(row),
{
    if row.len() > 0 {
        assert(rows.push(row).drop_last() =~= rows);
    } else {
        assert(rows_bits(rows) + row_bits(row) =~= rows_bits(rows));
    }
}

/// The cells of a text are the cells of its lines, line after line, and
/// there are as many as the lines have characters.
pub proof fn lemma_glyph_cells_by_rows(text: Seq<char>)
    ensures
        glyph_cells(text) == rows_bits(closed_rows(text)) + row_bits(open_row(text)),
        glyph_cells(text) == rows_bits(text_rows(text)),
        glyph_cells(text).len() == total_len(text_rows(text)),
        glyph_cells(text).len() == total_len(closed_rows(text)) + open_row(text).len(),
    decreases text.len(),
{
    if text.len() == 0 {
        assert(glyph_cells(text) =~= rows_bits(closed_rows(text)) + row_bits(open_row(text)));
    } else {
        let init = text.drop_last();
        lemma_glyph_cells_by_rows(init);
        if text.last() == '\n' {
            lemma_rows_bits_push(closed_rows(init), open_row(init));
            lemma_total_len_push(closed_rows(init), open_row(init));
            assert(rows_bits(closed_rows(text)) + row_bits(open_row(text)) =~= rows_bits(
                closed_rows(text),
            ));
        } else {
            assert(open_row(text).drop_last() =~= open_row(init));
            assert(row_bits(open_row(text)) =~= row_bits(open_row(init)).push(text.last() == '@'));
            assert((rows_bits(closed_rows(init)) + row_bits(open_row(init))).push(
                text.last() == '@',
            ) =~= rows_bits(closed_rows(text)) + row_bits(open_row(text)));
        }
    }
    lemma_rows_bits_push(closed_rows(text), open_row(text));
    lemma_total_len_push(closed_rows(text), open_row(text));
}

/// In a text that holds nothing but cells and line breaks every line takes one
/// byte per character.
pub proof fn lemma_plain_text(text: Seq<char>)
    requires
        first_stray(text) is None,
    ensures
        rows_plain(closed_rows(text)),
        byte_len(open_row(text)) == open_row(text).len(),
        rows_plain(text_rows(text)),
    decreases text.len(),
{
    if text.len() > 0 {
        let init = text.drop_last();
        lemma_plain_text(init);
        assert(is_symbol(text.last()));
        if text.last() == '\n' {
            lemma_rows_plain_push(closed_rows(init), open_row(init));
        } else {
            assert(open_row(text).drop_last() =~= open_row(init));
            assert(utf8_width(text.last()) == 1);
        }
    }
    lemma_rows_plain_push(closed_rows(text), open_row(text));
}

/// Among rows of one width, the cell of column `x` in row `y` stands where a
/// board keeps it: at index `y * width + x`.
pub proof fn lemma_rows_bits_index(rows: Seq<Seq<char>>, width: nat, x: int, y: int)
    requires
        forall|k: int| 0 <= k < rows.len() ==> (#[trigger] rows[k]).len() == width,
        0 <= x < width,
        0 <= y < rows.len(),
    ensures
        rows_bits(rows).len() == rows.len() * width,
        0 <= y * width + x < rows_bits(rows).len(),
        rows_bits(rows)[y * width + x] == (rows[y][x] == '@'),
    decreases rows.len(),
{
    let init = rows.drop_last();
    assert forall|k: int| 0 <= k < init.len() implies (#[trigger] init[k]).len() == width by {
        assert(init[k] == rows[k]);
    }
    lemma_rows_bits_len(init, width);
    assert(rows.len() * width == init.len() * width + width && y * width + x < (y + 1) * width
        && (y + 1) * width == y * width + width && (y < init.len() ==> (y + 1) * width
        <= init.len() * width)) by (nonlinear_arith)
        requires
            rows.len() == init.len() + 1,
            0 <= x < width,
            0 <= y,
    ;
    if y < init.len() {
        lemma_rows_bits_index(init, width, x, y);
        assert(init[y] == rows[y]);
    } else {
        assert(rows.last() == rows[y]);
    }
}

/// Rows of one width stand for as many cells as a rectangle of that width
/// has.
pub proof fn lemma_rows_bits_len(rows: Seq<Seq<char>>, width: nat)
    requires
        forall|k: int| 0 <= k < rows.len() ==> (#[trigger] rows[k]).len() == width,
    ensures
        rows_bits(rows).len() == rows.len() * width,
    decreases rows.len(),
{
    if rows.len() > 0 {
        let init = rows.drop_last();
        assert forall|k: int| 0 <= k < init.len() implies (#[trigger] init[k]).len()
            == width by {
            assert(init[k] == rows[k]);
        }
        lemma_rows_bits_len(init, width);
        assert(rows.len() * width == init.len() * width + width) by (nonlinear_arith)
            requires
                rows.len() == init.len() + 1,
        ;
    } else {
        assert(rows.len() * width == 0) by (nonlinear_arith)
            requires
                rows.len() == 0,
        ;
    }
}

/// A board that a text describes has one row for each of the text's lines
/// that is not empty, all of them as wide as the board, and its cell in
/// column `x` of row `y` is alive exactly where character `x` of line `y` is
/// `@`.
pub proof fn lemma_parsed_cells(text: Seq<char>)
    requires
        parse(text) is Ok,
    ensures
        ({
            let g = parse(text)->Ok_0;
            let rows = text_rows(text);
            &&& g.wf()
            &&& g.rows == rows.len()
            &&& forall|y: int| 0 <= y < g.rows ==> (#[trigger] rows[y]).len() == g.cols
            &&& forall|x: int, y: int|
                0 <= x < g.cols && 0 <= y < g.rows ==> #[trigger] g.cell(x, y) == (rows[y][x]
                    == '@')
        }),
{
    let g = parse(text)->Ok_0;
    let rows = text_rows(text);
    lemma_plain_text(text);
    lemma_glyph_cells_by_rows(text);
    assert forall|y: int| 0 <= y < rows.len() implies (#[trigger] rows[y]).len() == g.cols by {
        assert(byte_len(rows[y]) == rows[y].len());
        assert(byte_len(rows[0]) == rows[0].len());
        assert(byte_len(rows[y]) == byte_len(rows[0]));
    }
    lemma_rows_bits_len(rows, g.cols);
    assert forall|x: int, y: int| 0 <= x < g.cols && 0 <= y < g.rows implies #[trigger] g.cell(
        x,
        y,
    ) == (rows[y][x] == '@') by {
        lemma_rows_bits_index(rows, g.cols, x, y);
    }
}

} // verus!
