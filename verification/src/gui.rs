//! What a windowed session decides: how the board and the session change on
//! each event of the window, and what the window has to do.  Opening the
//! window, reading its events and drawing are left to the caller, which also
//! turns a cursor position into a row and a column.

use crate::board::Board;
use vstd::prelude::*;

verus! {

/// What happened in the window.
#[derive(Copy, Clone, Debug, PartialEq, Eq)]
pub enum Event {
    /// The left button was pressed over the cell in column `col` of row `row`.
    Click { row: usize, col: usize },
    /// The right button or the space bar was pressed.
    ToggleRunning,
    /// The key for a dead board was pressed.
    Clear,
    /// The key that ends the session was pressed.
    Quit,
    /// The key for a random board was pressed.
    Randomize,
    /// The key for a single step was pressed.
    Step,
    /// It is time for the next frame.
    Update,
    /// The window now has room for `cols` columns and `rows` rows.
    Resize { cols: usize, rows: usize },
    /// Anything else.
    Other,
}

/// What the window has to do after an event.
#[derive(Copy, Clone, Debug, PartialEq, Eq)]
pub enum Action {
    /// Go on.
    Proceed,
    /// Close.
    Close,
    /// Draw on a surface of `cols` columns and `rows` rows from now on.
    Resurface { cols: usize, rows: usize },
}

/// A session: its board, whether generations go by, up to which generation,
/// and whether the window closes there.
pub struct GameState {
    pub brd: Board,
    pub running: bool,
    pub generation_limit: Option<usize>,
    pub exit_on_finish: bool,
}

/// The larger of two.
pub open spec fn larger(a: int, b: int) -> int {
    if a >= b {
        a
    } else {
        b
    }
}

impl GameState {
    /// A session on `brd`.
    pub fn new(brd: Board, running: bool, generation_limit: Option<usize>, exit_on_finish: bool) -> (gs:
        GameState)
        ensures
            gs.brd@ == brd@,
            gs.running == running,
            gs.generation_limit == generation_limit,
            gs.exit_on_finish == exit_on_finish,
    {
        GameState { brd, running, generation_limit, exit_on_finish }
    }

    /// The session has reached the generation at which it stops.
    pub open spec fn at_limit(&self) -> bool {
        self.generation_limit == Some(self.brd@.generation as usize)
    }

    /// The event asks for nothing that a machine cannot hold: a step keeps
    /// the generation at most `usize::MAX`, and a board grown to the window
    /// has at most `usize::MAX` cells and grows by at most `isize::MAX` rows
    /// and columns.
    pub open spec fn accepts(&self, e: Event) -> bool {
        match e {
            Event::Step => self.brd@.generation < usize::MAX,
            Event::Update => self.running && !self.at_limit() ==> self.brd@.generation
                < usize::MAX,
            Event::Resize { cols, rows } => {
                let wide = larger(self.brd@.cols as int, cols as int);
                let tall = larger(self.brd@.rows as int, rows as int);
                &&& wide - self.brd@.cols <= isize::MAX
                &&& tall - self.brd@.rows <= isize::MAX
                &&& wide * tall <= usize::MAX
            },
            _ => true,
        }
    }

    /// Whether the event asks for nothing that a machine cannot hold.
    pub fn check_accepts(&self, e: Event) -> (ok: bool)
        ensures
            ok == self.accepts(e),
    {
        match e {
            Event::Step => self.brd.generation() < usize::MAX,
            Event::Update => {
                let at_limit = match self.generation_limit {
                    Some(limit) => limit == self.brd.generation(),
                    None => false,
                };
                !(self.running && !at_limit) || self.brd.generation() < usize::MAX
            },
            Event::Resize { cols, rows } => {
                let (old_cols, old_rows) = (self.brd.cols(), self.brd.rows());
                let wide = if old_cols >= cols {
                    old_cols
                } else {
                    cols
                };
                let tall = if old_rows >= rows {
                    old_rows
                } else {
                    rows
                };
                assert(wide * tall <= u128::MAX) by (nonlinear_arith)
                    requires
                        wide <= 0xffff_ffff_ffff_ffff,
                        tall <= 0xffff_ffff_ffff_ffff,
                ;
                wide - old_cols <= isize::MAX as usize && tall - old_rows <= isize::MAX as usize
                    && wide as u128 * tall as u128 <= usize::MAX as u128
            },
            _ => true,
        }
    }

    /// Takes in one event and says what the window has to do.
    ///
    /// A click flips a cell.  The keys clear the board, fill it at random,
    /// advance it by one generation, start and stop the run, and end the
    /// session.  On each frame a running session advances by one generation
    /// until it is at its limit, where it stops or closes.  A window that has
    /// grown makes the board grow to the right and to the bottom; a board
    /// never shrinks.
    pub fn handle_event(&mut self, e: Event) -> (action: Action)
        requires
            old(self).accepts(e),
        ensures
            final(self).generation_limit == old(self).generation_limit,
            final(self).exit_on_finish == old(self).exit_on_finish,
            final(self).brd@.wf(),
            match e {
                Event::Click { row, col } => {
                    &&& final(self).brd@ == old(self).brd@.toggled(col as int, row as int)
                    &&& final(self).running == old(self).running
                    &&& action == Action::Proceed
                },
                Event::ToggleRunning => {
                    &&& final(self).brd@ == old(self).brd@
                    &&& final(self).running == !old(self).running
                    &&& action == Action::Proceed
                },
                Event::Clear => {
                    &&& final(self).brd@ == old(self).brd@.cleared()
                    &&& final(self).running == old(self).running
                    &&& action == Action::Proceed
                },
                Event::Quit => {
                    &&& final(self).brd@ == old(self).brd@
                    &&& final(self).running == old(self).running
                    &&& action == Action::Close
                },
                Event::Randomize => {
                    &&& final(self).brd@ == old(self).brd@.with_cells(final(self).brd@.cells)
                    &&& final(self).running == old(self).running
                    &&& action == Action::Proceed
                },
                Event::Step => {
                    &&& final(self).brd@ == old(self).brd@.stepped()
                    &&& final(self).running == old(self).running
                    &&& action == Action::Proceed
                },
                Event::Update => if !old(self).running {
                    &&& final(self).brd@ == old(self).brd@
                    &&& !final(self).running
                    &&& action == Action::Proceed
                } else if !old(self).at_limit() {
                    &&& final(self).brd@ == old(self).brd@.stepped()
                    &&& final(self).running
                    &&& action == Action::Proceed
                } else if old(self).exit_on_finish {
                    &&& final(self).brd@ == old(self).brd@
                    &&& final(self).running
                    &&& action == Action::Close
                } else {
                    &&& final(self).brd@ == old(self).brd@
                    &&& !final(self).running
                    &&& action == Action::Proceed
                },
                Event::Resize { cols, rows } => {
                    let wide = larger(old(self).brd@.cols as int, cols as int);
                    let tall = larger(old(self).brd@.rows as int, rows as int);
                    &&& final(self).brd@ == old(self).brd@.padded(
                        0,
                        wide - old(self).brd@.cols,
                        tall - old(self).brd@.rows,
                        0,
                    )
                    &&& final(self).running == old(self).running
                    &&& action == if wide == old(self).brd@.cols && tall == old(self).brd@.rows {
                        Action::Proceed
                    } else {
                        Action::Resurface { cols: wide as usize, rows: tall as usize }
                    }
                },
                Event::Other => {
                    &&& final(self).brd@ == old(self).brd@
                    &&& final(self).running == old(self).running
                    &&& action == Action::Proceed
                },
            },
    {
        let _ = self.brd.len();
        match e {
            Event::Click { row, col } => {
                self.brd = self.brd.toggle(col, row);
                Action::Proceed
            },
            Event::ToggleRunning => {
                self.running = !self.running;
                Action::Proceed
            },
            Event::Clear => {
                self.brd = self.brd.clear();
                Action::Proceed
            },
            Event::Quit => Action::Close,
            Event::Randomize => {
                self.brd = self.brd.random();
                Action::Proceed
            },
            Event::Step => {
                self.brd = self.brd.next_generation();
                Action::Proceed
            },
            Event::Update => {
                if !self.running {
                    return Action::Proceed;
                }
                let at_limit = match self.generation_limit {
                    Some(limit) => limit == self.brd.generation(),
                    None => false,
                };
                if at_limit {
                    if self.exit_on_finish {
                        Action::Close
                    } else {
                        self.running = false;
                        Action::Proceed
                    }
                } else {
                    self.brd = self.brd.next_generation();
                    Action::Proceed
                }
            },
            Event::Resize { cols, rows } => {
                let (old_cols, old_rows) = (self.brd.cols(), self.brd.rows());
                let cols = if old_cols >= cols {
                    old_cols
                } else {
                    cols
                };
                let rows = if old_rows >= rows {
                    old_rows
                } else {
                    rows
                };
                if cols != old_cols || rows != old_rows {
                    assert(rows * cols == cols * rows) by (nonlinear_arith);
                    self.brd = self.brd.pad(
                        0,
                        (cols - old_cols) as isize,
                        (rows - old_rows) as isize,
                        0,
                    );
                    Action::Resurface { cols, rows }
                } else {
                    proof {
                        crate::laws::lemma_pad_nothing(self.brd@);
                    }
                    Action::Proceed
                }
            },
            Event::Other => Action::Proceed,
        }
    }
}

} // verus!
