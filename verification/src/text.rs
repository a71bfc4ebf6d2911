//! The textual form of a board: one line per row, `@` for a live cell and `.`
//! for a dead one.

use crate::arith::lemma_index_in_bounds;
use crate::board::Board;
use crate::grid::{default_born, default_survive, Grid};
use vstd::prelude::*;

verus! {

/// The character that stands for a live cell.
pub const LIVE_CELL: char = '@';

/// The character that stands for a dead cell.
pub const DEAD_CELL: char = '.';

/// The character that stands for a cell.
pub open spec fn glyph(alive: bool) -> char {
    if alive {
        '@'
    } else {
        '.'
    }
}

/// Row `y` of a board as text.
pub open spec fn render_row(g: Grid, y: int) -> Seq<char> {
    Seq::new(g.cols, |x: int| glyph(g.cells[y * g.cols + x]))
}

/// The first `n` rows of a board as text, joined by line breaks.
pub open spec fn render_rows(g: Grid, n: nat) -> Seq<char>
    decreases n,
{
    if n == 0 {
        Seq::empty()
    } else if n == 1 {
        render_row(g, 0)
    } else {
        render_rows(g, (n - 1) as nat) + seq!['\n'] + render_row(g, n - 1)
    }
}

/// A board as text: one line per row, no line break after the last.
pub open spec fn render(g: Grid) -> Seq<char> {
    render_rows(g, g.rows)
}

/// Number of bytes that `c` takes in UTF-8.
pub open spec fn utf8_width(c: char) -> nat {
    if (c as u32) < 0x80 {
        1
    } else if (c as u32) < 0x800 {
        2
    } else if (c as u32) < 0x10000 {
        3
    } else {
        4
    }
}

/// Number of bytes that `row` takes in UTF-8.
pub open spec fn byte_len(row: Seq<char>) -> nat
    decreases row.len(),
{
    if row.len() == 0 {
        0
    } else {
        byte_len(row.drop_last()) + utf8_width(row.last())
    }
}

/// `rows` followed by `row`, unless `row` is empty.
pub open spec fn push_row(rows: Seq<Seq<char>>, row: Seq<char>) -> Seq<Seq<char>> {
    if row.len() > 0 {
        rows.push(row)
    } else {
        rows
    }
}

/// What follows the last line break of `text`.
pub open spec fn open_row(text: Seq<char>) -> Seq<char>
    decreases text.len(),
{
    if text.len() == 0 || text.last() == '\n' {
        Seq::empty()
    } else {
        open_row(text.drop_last()).push(text.last())
    }
}

/// The non-empty lines of `text` that a line break ends.
pub open spec fn closed_rows(text: Seq<char>) -> Seq<Seq<char>>
    decreases text.len(),
{
    if text.len() == 0 {
        Seq::empty()
    } else if text.last() == '\n' {
        push_row(closed_rows(text.drop_last()), open_row(text.drop_last()))
    } else {
        closed_rows(text.drop_last())
    }
}

/// The non-empty lines of `text`.
pub open spec fn text_rows(text: Seq<char>) -> Seq<Seq<char>> {
    push_row(closed_rows(text), open_row(text))
}

/// Some row takes another number of bytes than the first.
pub open spec fn ragged(rows: Seq<Seq<char>>) -> bool {
    exists|k: int| 0 <= k < rows.len() && byte_len(#[trigger] rows[k]) != byte_len(rows[0])
}

/// `c` may occur in the text of a board.
pub open spec fn is_symbol(c: char) -> bool {
    c == '@' || c == '.' || c == '\n'
}

/// The first character of `text` that may not occur in the text of a board.
pub open spec fn first_stray(text: Seq<char>) -> Option<char>
    decreases text.len(),
{
    if text.len() == 0 {
        None
    } else {
        match first_stray(text.drop_last()) {
            Some(c) => Some(c),
            None => if is_symbol(text.last()) {
                None
            } else {
                Some(text.last())
            },
        }
    }
}

/// The cells that `text` spells, line breaks left out: alive where it has `@`.
pub open spec fn glyph_cells(text: Seq<char>) -> Seq<bool>
    decreases text.len(),
{
    if text.len() == 0 {
        Seq::empty()
    } else if text.last() == '\n' {
        glyph_cells(text.drop_last())
    } else {
        glyph_cells(text.drop_last()).push(text.last() == '@')
    }
}

/// What a text says whose rows differ in length.
pub open spec fn mismatch_message() -> Seq<char> {
    "row length mismatch"@
}

/// What a text says that holds the character `c`, which stands for no cell.
pub open spec fn unexpected_message(c: char) -> Seq<char> {
    "Unexpected '"@.push(c).push('\'')
}

/// The board that `text` describes, or what is wrong with `text`.
///
/// The rows are the non-empty lines.  They must all take the same number of
/// bytes, and no character but `@`, `.` and the line break may occur; the
/// first fault is reported before the second.  The board has one row per
/// line and as many columns as the first line has characters, under the
/// classic rule at generation 0.
pub open spec fn parse(text: Seq<char>) -> Result<Grid, Seq<char>> {
    let rows = text_rows(text);
    if ragged(rows) {
        Err(mismatch_message())
    } else if first_stray(text) is Some {
        Err(unexpected_message(first_stray(text)->0))
    } else {
        Ok(
            Grid {
                rows: rows.len(),
                cols: if rows.len() > 0 {
                    rows[0].len()
                } else {
                    0
                },
                cells: glyph_cells(text),
                born: default_born(),
                survive: default_survive(),
                generation: 0,
            },
        )
    }
}

/// Number of characters in all of `rows`.
pub open spec fn total_len(rows: Seq<Seq<char>>) -> nat
    decreases rows.len(),
{
    if rows.len() == 0 {
        0
    } else {
        total_len(rows.drop_last()) + rows.last().len()
    }
}

/// Every row takes one byte per character.
pub open spec fn rows_plain(rows: Seq<Seq<char>>) -> bool {
    forall|k: int| 0 <= k < rows.len() ==> byte_len(#[trigger] rows[k]) == rows[k].len()
}

/// A row takes at most four bytes per character.
pub proof fn lemma_byte_len_bound(row: Seq<char>)
    ensures
        byte_len(row) <= 4 * row.len(),
    decreases row.len(),
{
    if row.len() > 0 {
        lemma_byte_len_bound(row.drop_last());
    }
}

/// Adding a row makes the rows ragged exactly if they were, or if the new
/// row differs from the first.
pub proof fn lemma_ragged_push(rows: Seq<Seq<char>>, row: Seq<char>)
    ensures
        ragged(rows.push(row)) <==> ragged(rows) || (rows.len() > 0 && byte_len(row) != byte_len(
            rows[0],
        )),
{
    let more = rows.push(row);
    if ragged(rows) {
        let k = choose|k: int| 0 <= k < rows.len() && byte_len(#[trigger] rows[k]) != byte_len(rows[0]);
        assert(more[k] == rows[k]);
        assert(more[0] == rows[0]);
    }
    if rows.len() > 0 && byte_len(row) != byte_len(rows[0]) {
        assert(more[rows.len() as int] == row);
        assert(more[0] == rows[0]);
    }
    if ragged(more) {
        let k = choose|k: int| 0 <= k < more.len() && byte_len(#[trigger] more[k]) != byte_len(more[0]);
        if k < rows.len() {
            assert(more[k] == rows[k]);
            assert(more[0] == rows[0]);
        } else {
            assert(more[k] == row);
            if rows.len() > 0 {
                assert(more[0] == rows[0]);
            }
        }
    }
}

/// Rows of one width that take one byte per character hold as many
/// characters as a rectangle of that width.
pub proof fn lemma_total_len_uniform(rows: Seq<Seq<char>>)
    requires
        !ragged(rows),
        rows_plain(rows),
        rows.len() > 0,
    ensures
        total_len(rows) == rows.len() * rows[0].len(),
    decreases rows.len(),
{
    let init = rows.drop_last();
    if init.len() == 0 {
        assert(total_len(init) == 0);
        assert(rows.last() == rows[0]);
    } else {
        assert forall|k: int| 0 <= k < init.len() implies byte_len(#[trigger] init[k])
            == init[k].len() by {
            assert(init[k] == rows[k]);
        }
        if ragged(init) {
            let k = choose|k: int| 0 <= k < init.len() && byte_len(#[trigger] init[k]) != byte_len(init[0]);
            assert(init[k] == rows[k]);
            assert(init[0] == rows[0]);
        }
        lemma_total_len_uniform(init);
        assert(init[0] == rows[0]);
        let last = rows[rows.len() - 1];
        assert(byte_len(last) == byte_len(rows[0]));
        assert(byte_len(last) == last.len());
        assert(byte_len(rows[0]) == rows[0].len());
        assert(rows.len() * rows[0].len() == init.len() * rows[0].len() + rows[0].len())
            by (nonlinear_arith)
            requires
                rows.len() == init.len() + 1,
        ;
    }
}

/// Number of characters after a row was added.
pub proof fn lemma_total_len_push(rows: Seq<Seq<char>>, row: Seq<char>)
    ensures
        total_len(push_row(rows, row)) == total_len(rows) + row.len(),
{
    if row.len() > 0 {
        assert(rows.push(row).drop_last() =~= rows);
    }
}

/// Rows of one byte per character stay so when such a row is added.
pub proof fn lemma_rows_plain_push(rows: Seq<Seq<char>>, row: Seq<char>)
    requires
        rows_plain(rows),
        byte_len(row) == row.len(),
    ensures
        rows_plain(push_row(rows, row)),
{
    let more = push_row(rows, row);
    assert forall|k: int| 0 <= k < more.len() implies byte_len(#[trigger] more[k])
        == more[k].len() by {
        if k < rows.len() {
            assert(more[k] == rows[k]);
        }
    }
}

/// `String::push`: `c` is appended to `s`.
#[verifier::external_body]
fn push_char(s: &mut String, c: char)
    ensures
        final(s)@ == old(s)@.push(c),
{
    s.push(c);
}

/// The characters of `text`, one by one.
fn chars_of(text: &str) -> (chars: Vec<char>)
    ensures
        chars@ == text@,
{
    let mut chars: Vec<char> = Vec::new();
    for c in it: text.chars()
        invariant
            it.seq() == text@,
            chars@ == text@.take(it.index()),
    {
        chars.push(c);
        assert(text@.take(it.index() + 1) =~= text@.take(it.index()).push(c));
    }
    assert(text@.take(text@.len() as int) =~= text@);
    chars
}

/// Why a text describes no board.  The message is the only field.
#[derive(Debug, PartialEq)]
pub struct ParseBoardErr(pub String);

impl View for ParseBoardErr {
    type V = Seq<char>;

    open spec fn view(&self) -> Seq<char> {
        self.0@
    }
}

impl ParseBoardErr {
    /// The message.
    pub fn to_string(&self) -> (message: String)
        ensures
            message@ == self@,
    {
        self.0.clone()
    }
}

/// Number of bytes that `c` takes in UTF-8.
fn width_of(c: char) -> (width: u128)
    ensures
        width == utf8_width(c),
{
    let code = c as u32;
    if code < 0x80 {
        1
    } else if code < 0x800 {
        2
    } else if code < 0x10000 {
        3
    } else {
        4
    }
}

/// What a scan has learned of the rows that it has passed.
struct Rows {
    count: usize,
    first_len: usize,
    first_bytes: u128,
    ragged: bool,
}

impl Rows {
    /// This is what there is to know of `rows`.
    spec fn tracks(&self, rows: Seq<Seq<char>>) -> bool {
        &&& self.count == rows.len()
        &&& self.ragged == ragged(rows)
        &&& rows.len() > 0 ==> self.first_len == rows[0].len() && self.first_bytes == byte_len(
            rows[0],
        )
        &&& rows.len() == 0 ==> self.first_len == 0
    }

    /// Takes in a row of `len` characters and `bytes` bytes, if it is not
    /// empty.
    fn close(&mut self, len: usize, bytes: u128, Ghost(rows): Ghost<Seq<Seq<char>>>, Ghost(row): Ghost<Seq<char>>)
        requires
            old(self).tracks(rows),
            len == row.len(),
            bytes == byte_len(row),
            old(self).count + (if len > 0 { 1int } else { 0 }) <= usize::MAX,
        ensures
            final(self).tracks(push_row(rows, row)),
    {
        if len > 0 {
            proof {
                lemma_ragged_push(rows, row);
            }
            if self.count == 0 {
                self.first_len = len;
                self.first_bytes = bytes;
            } else if bytes != self.first_bytes {
                self.ragged = true;
            }
            self.count += 1;
        }
    }
}

impl Board {
    /// The board that `string` describes.
    ///
    /// Every non-empty line is a row: `@` is a live cell, `.` a dead one.
    /// Fails with the message `row length mismatch` where the rows differ in
    /// length, else with `Unexpected '<c>'` for the first character `c` that
    /// stands for no cell.  The board has the classic rule and generation 0.
    pub fn from_str(string: &str) -> (res: Result<Board, ParseBoardErr>)
        ensures
            match res {
                Ok(brd) => parse(string@) == Ok::<Grid, Seq<char>>(brd@) && brd@.wf(),
                Err(e) => parse(string@) == Err::<Grid, Seq<char>>(e@),
            },
    {
        let chars = chars_of(string);
        let n = chars.len();
        let mut cells: Vec<bool> = Vec::new();
        let mut rows = Rows { count: 0, first_len: 0, first_bytes: 0, ragged: false };
        let mut cur_len: usize = 0;
        let mut cur_bytes: u128 = 0;
        let mut stray: Option<char> = None;
        let mut i: usize = 0;
        assert(!ragged(Seq::<Seq<char>>::empty()));
        while i < n
            invariant
                i <= n,
                n == chars@.len(),
                rows.tracks(closed_rows(chars@.take(i as int))),
                rows.count + cur_len <= i,
                cur_len == open_row(chars@.take(i as int)).len(),
                cur_bytes == byte_len(open_row(chars@.take(i as int))),
                stray == first_stray(chars@.take(i as int)),
                cells@ == glyph_cells(chars@.take(i as int)),
                cells@.len() == total_len(closed_rows(chars@.take(i as int))) + cur_len,
                stray is None ==> rows_plain(closed_rows(chars@.take(i as int))) && cur_bytes
                    == cur_len,
            decreases n - i,
        {
            let c = chars[i];
            let ghost seen = chars@.take(i as int);
            let ghost next = chars@.take(i + 1);
            proof {
                assert(next.drop_last() =~= seen);
                assert(next.last() == c);
                lemma_byte_len_bound(open_row(seen));
            }
            if c == '\n' {
                rows.close(cur_len, cur_bytes, Ghost(closed_rows(seen)), Ghost(open_row(seen)));
                proof {
                    lemma_total_len_push(closed_rows(seen), open_row(seen));
                    if stray is None {
                        lemma_rows_plain_push(closed_rows(seen), open_row(seen));
                    }
                }
                cur_len = 0;
                cur_bytes = 0;
            } else {
                proof {
                    assert(open_row(next) == open_row(seen).push(c));
                    assert(open_row(seen).push(c).drop_last() =~= open_row(seen));
                }
                cells.push(c == LIVE_CELL);
                cur_len += 1;
                cur_bytes += width_of(c);
                if stray.is_none() && c != LIVE_CELL && c != DEAD_CELL {
                    stray = Some(c);
                }
            }
            i += 1;
        }
        let ghost text = chars@;
        proof {
            assert(chars@.take(n as int) =~= text);
            lemma_total_len_push(closed_rows(text), open_row(text));
            if stray is None {
                lemma_rows_plain_push(closed_rows(text), open_row(text));
            }
        }
        rows.close(cur_len, cur_bytes, Ghost(closed_rows(text)), Ghost(open_row(text)));
        if rows.ragged {
            return Err(ParseBoardErr("row length mismatch".to_owned()));
        }
        match stray {
            Some(c) => {
                let mut message = "Unexpected '".to_owned();
                push_char(&mut message, c);
                push_char(&mut message, '\'');
                Err(ParseBoardErr(message))
            },
            None => {
                proof {
                    if text_rows(text).len() > 0 {
                        lemma_total_len_uniform(text_rows(text));
                    }
                    assert(cells@.len() == cells.len());
                    assert(cells@.len() == rows.count * rows.first_len) by (nonlinear_arith)
                        requires
                            rows.count == 0 ==> cells@.len() == 0,
                            rows.count > 0 ==> cells@.len() == rows.count * rows.first_len,
                    ;
                }
                Ok(Board::new(rows.count, rows.first_len).next_board(cells))
            },
        }
    }

    /// The board as text: one line per row, rows joined by a single line
    /// break, no line break at the end.
    pub fn to_string(&self) -> (text: String)
        ensures
            text@ == render(self@),
    {
        let rows = self.rows();
        let cols = self.cols();
        let cells = self.cells();
        let len = self.len();
        let mut text = String::new();
        let mut y: usize = 0;
        while y < rows
            invariant
                y <= rows,
                rows == self@.rows,
                cols == self@.cols,
                cells@ == self@.cells,
                len == rows * cols,
                len == cells@.len(),
                text@ == render_rows(self@, y as nat),
            decreases rows - y,
        {
            if y > 0 {
                push_char(&mut text, '\n');
            }
            let ghost before = text@;
            let mut x: usize = 0;
            while x < cols
                invariant
                    y < rows,
                    x <= cols,
                    rows == self@.rows,
                    cols == self@.cols,
                    cells@ == self@.cells,
                    len == rows * cols,
                    len == cells@.len(),
                    text@ == before + render_row(self@, y as int).take(x as int),
                decreases cols - x,
            {
                proof {
                    lemma_index_in_bounds(x as int, y as int, rows as int, cols as int);
                }
                let c = if cells[y * cols + x] {
                    LIVE_CELL
                } else {
                    DEAD_CELL
                };
                push_char(&mut text, c);
                assert(render_row(self@, y as int).take(x + 1) =~= render_row(
                    self@,
                    y as int,
                ).take(x as int).push(c));
                x += 1;
            }
            assert(render_row(self@, y as int).take(cols as int) =~= render_row(self@, y as int));
            assert(text@ =~= render_rows(self@, (y + 1) as nat));
            y += 1;
        }
        text
    }
}

} // verus!
