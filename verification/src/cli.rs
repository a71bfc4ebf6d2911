//! From the options of a run to its first board, and from board to board
//! while the run shows its frames.  Reading the options, printing and waiting
//! are left to the caller.

use crate::args::{alignment_padding, margins_of, padding_of, parse_padding, Alignment};
use crate::board::Board;
use crate::grid::Grid;
use crate::text::render;
use vstd::prelude::*;
use vstd::string::StringExecFns;

verus! {

/// What a terminal takes as the order to wipe the screen.
pub const CLEAR: &'static str = "\x1b[H\x1b[2J";

/// The options of a run.
pub struct Args {
    /// Number of columns of the board.
    pub cols: usize,
    /// Number of rows of the board.
    pub rows: usize,
    /// The pattern to start from; a random board where there is none.
    pub template: Option<Board>,
    /// Where the template sits inside the board.
    pub align: Alignment,
    /// One to four margins round the template, in place of an alignment.
    pub padding: Option<Vec<isize>>,
    /// Number of generations to advance before anything is shown.
    pub generations: Option<usize>,
    /// The last generation to show.
    pub generation_limit: Option<usize>,
    /// Whether the window closes after the last generation.
    pub exit_on_finish: bool,
    /// Whether the run prints to the terminal.
    pub no_gui: bool,
    /// Frames per second to aim at.
    pub ups: u64,
}

/// How a run goes on once its first board is made.
pub enum Launch {
    /// Frames are printed to the terminal.
    Cli { board: Board, ups: u64, run_gens: Option<usize> },
    /// Frames are drawn in a window.
    Gui {
        board: Board,
        ups: u64,
        running: bool,
        generation_limit: Option<usize>,
        exit_on_finish: bool,
    },
}

/// What a run in the terminal does next.
pub enum CliStep {
    /// Print `frame`, then go on with `next`, or stop where there is none.
    Print { frame: String, next: Option<Board> },
    /// Stop.
    Done,
}

/// The board `n` generations after `g`.
pub open spec fn stepped_times(g: Grid, n: nat) -> Grid
    decreases n,
{
    if n == 0 {
        g
    } else {
        stepped_times(g, (n - 1) as nat).stepped()
    }
}

impl Args {
    /// Number of generations to advance before anything is shown.
    pub open spec fn steps(&self) -> nat {
        match self.generations {
            Some(n) => n as nat,
            None => 0,
        }
    }

    /// The margins `(top, right, bottom, left)` round the template `t`.
    pub open spec fn margins(&self, t: Grid) -> (int, int, int, int) {
        match self.padding {
            Some(padding) => {
                let m = padding_of(padding@);
                (m.0 as int, m.1 as int, m.2 as int, m.3 as int)
            },
            None => margins_of(self.align, self.cols - t.cols, self.rows - t.rows),
        }
    }

    /// The template `t` as the first board shows it, before any step.
    pub open spec fn placed(&self, t: Grid) -> Grid {
        let m = self.margins(t);
        t.padded(m.0, m.1, m.2, m.3)
    }

    /// The numbers of the run are within what a machine can hold: the board
    /// has at most `usize::MAX` cells, the generation counter stays at most
    /// `usize::MAX`, a list of margins has one to four entries, and the
    /// rows and columns to spare are signed machine integers.
    pub open spec fn fits(&self) -> bool {
        match self.template {
            Some(t) => {
                let m = self.margins(t@);
                &&& self.padding matches Some(padding) ==> 1 <= padding@.len() <= 4
                &&& self.padding is None ==> isize::MIN <= self.rows - t@.rows <= isize::MAX
                    && isize::MIN <= self.cols - t@.cols <= isize::MAX
                &&& t@.pad_fits(m.0, m.1, m.2, m.3)
                &&& t@.generation + self.steps() <= usize::MAX
                &&& t@.wf()
            },
            None => self.rows * self.cols <= usize::MAX,
        }
    }

    /// `g` is a first board of this run: the template placed and advanced,
    /// or a board of the asked size under the classic rule that was filled
    /// at generation 0 and advanced.
    pub open spec fn makes(&self, g: Grid) -> bool {
        match self.template {
            Some(t) => g == stepped_times(self.placed(t@), self.steps()),
            None => exists|cells: Seq<bool>|
                cells.len() == self.rows * self.cols && g == stepped_times(
                    #[trigger] Grid::empty(
                        self.rows as nat,
                        self.cols as nat,
                        crate::grid::default_born(),
                        crate::grid::default_survive(),
                    ).with_cells(cells),
                    self.steps(),
                ),
        }
    }

    /// What a run in the terminal shows: up to the limit where one is given,
    /// the first board alone where only a number of generations to advance
    /// is given, and nothing otherwise.
    pub open spec fn cli_run_gens(&self) -> Option<usize> {
        match self.generation_limit {
            Some(limit) => Some(limit),
            None => if self.generations is Some {
                Some(0usize)
            } else {
                None
            },
        }
    }

    /// Whether the numbers of the run are within what a machine can hold.
    pub fn check_fits(&self) -> (fits: bool)
        ensures
            fits == self.fits(),
    {
        match &self.template {
            Some(template) => {
                let steps = match self.generations {
                    Some(n) => n,
                    None => 0,
                };
                if steps > usize::MAX - template.generation() {
                    return false;
                }
                let _ = template.len();
                match &self.padding {
                    Some(padding) => {
                        if padding.len() < 1 || padding.len() > 4 {
                            return false;
                        }
                        let (top, right, bottom, left) = parse_padding(padding.as_slice());
                        template.pad_fits(top, right, bottom, left)
                    },
                    None => {
                        let vertical = self.rows as i128 - template.rows() as i128;
                        let horizontal = self.cols as i128 - template.cols() as i128;
                        if vertical < isize::MIN as i128 || vertical > isize::MAX as i128
                            || horizontal < isize::MIN as i128 || horizontal > isize::MAX as i128 {
                            return false;
                        }
                        let (top, right, bottom, left) = alignment_padding(
                            self.align,
                            horizontal as isize,
                            vertical as isize,
                        );
                        template.pad_fits(top, right, bottom, left)
                    },
                }
            },
            None => {
                assert(self.rows * self.cols <= u128::MAX) by (nonlinear_arith)
                    requires
                        self.rows <= 0xffff_ffff_ffff_ffff,
                        self.cols <= 0xffff_ffff_ffff_ffff,
                ;
                let cells = self.rows as u128 * self.cols as u128;
                cells <= usize::MAX as u128
            },
        }
    }
}

/// The board that is `n` generations on.
pub fn advance(brd: Board, n: usize) -> (next: Board)
    requires
        brd@.generation + n <= usize::MAX,
    ensures
        next@ == stepped_times(brd@, n as nat),
        next@.generation == brd@.generation + n,
        next@.rows == brd@.rows && next@.cols == brd@.cols,
        next@.wf(),
{
    let _ = brd.len();
    let ghost start = brd@;
    let mut brd = brd;
    let mut i: usize = 0;
    while i < n
        invariant
            i <= n,
            start.generation + n <= usize::MAX,
            brd@ == stepped_times(start, i as nat),
            brd@.generation == start.generation + i,
            brd@.rows == start.rows && brd@.cols == start.cols,
            brd@.wf(),
        decreases n - i,
    {
        brd = brd.next_generation();
        i += 1;
    }
    brd
}

/// The first board of a run: the template inside its margins, or a random
/// board of the asked size, advanced by the asked number of generations.
pub fn make_board(args: &Args) -> (brd: Board)
    requires
        args.fits(),
    ensures
        args.makes(brd@),
        brd@.wf(),
{
    let brd = match &args.template {
        Some(template) => {
            let (top, right, bottom, left) = match &args.padding {
                Some(padding) => parse_padding(padding.as_slice()),
                None => {
                    let vertical_padding = (args.rows as i128 - template.rows() as i128) as isize;
                    let horizontal_padding = (args.cols as i128 - template.cols() as i128) as isize;
                    alignment_padding(args.align, horizontal_padding, vertical_padding)
                },
            };
            template.pad(top, right, bottom, left)
        },
        None => Board::new(args.rows, args.cols).random(),
    };
    let ghost first = brd@;
    let steps = match args.generations {
        Some(n) => n,
        None => 0,
    };
    let brd = advance(brd, steps);
    proof {
        if args.template is None {
            let empty = Grid::empty(
                args.rows as nat,
                args.cols as nat,
                crate::grid::default_born(),
                crate::grid::default_survive(),
            );
            assert(first == empty.with_cells(first.cells));
        }
    }
    brd
}

/// How the run goes on: its first board, and whether the terminal or a window
/// shows it.
pub fn run(args: &Args) -> (launch: Launch)
    requires
        args.fits(),
    ensures
        match launch {
            Launch::Cli { board, ups, run_gens } => {
                &&& args.no_gui
                &&& args.makes(board@)
                &&& board@.wf()
                &&& ups == args.ups
                &&& run_gens == args.cli_run_gens()
            },
            Launch::Gui { board, ups, running, generation_limit, exit_on_finish } => {
                &&& !args.no_gui
                &&& args.makes(board@)
                &&& board@.wf()
                &&& ups == args.ups
                &&& running == (args.generations is None || args.generation_limit is Some)
                &&& generation_limit == args.generation_limit
                &&& exit_on_finish == args.exit_on_finish
            },
        },
{
    let cli_run_gens = match args.generation_limit {
        Some(limit) => Some(limit),
        None => if args.generations.is_some() {
            Some(0)
        } else {
            None
        },
    };
    let brd = make_board(args);
    if args.no_gui {
        Launch::Cli { board: brd, ups: args.ups, run_gens: cli_run_gens }
    } else {
        Launch::Gui {
            board: brd,
            ups: args.ups,
            running: args.generations.is_none() || args.generation_limit.is_some(),
            generation_limit: args.generation_limit,
            exit_on_finish: args.exit_on_finish,
        }
    }
}

/// What a run in the terminal does with `brd`.
///
/// Where `run_gens` is 0 the board is printed once, as it is.  Where it is a
/// later generation, the board is printed behind the order to wipe the screen
/// as long as its generation is no later, and the run goes on with the next
/// generation.  Otherwise nothing is printed.
pub fn cli_step(brd: &Board, run_gens: Option<usize>) -> (step: CliStep)
    ensures
        match step {
            CliStep::Print { frame, next } => match next {
                Some(next) => {
                    &&& run_gens matches Some(limit) && limit != 0 && brd@.generation <= limit
                    &&& brd@.generation < usize::MAX
                    &&& frame@ == CLEAR@ + render(brd@)
                    &&& next@ == brd@.stepped()
                    &&& next@.wf()
                },
                None => {
                    ||| run_gens == Some(0usize) && frame@ == render(brd@)
                    ||| run_gens == Some(usize::MAX) && brd@.generation == usize::MAX && frame@
                        == CLEAR@ + render(brd@)
                },
            },
            CliStep::Done => run_gens matches Some(limit) ==> limit != 0 && brd@.generation > limit,
        },
{
    match run_gens {
        None => CliStep::Done,
        Some(limit) => {
            if limit == 0 {
                CliStep::Print { frame: brd.to_string(), next: None }
            } else if brd.generation() <= limit {
                let mut frame = CLEAR.to_owned();
                frame.append(brd.to_string().as_str());
                let next = if brd.generation() < usize::MAX {
                    Some(brd.next_generation())
                } else {
                    None
                };
                CliStep::Print { frame, next }
            } else {
                CliStep::Done
            }
        },
    }
}

} // verus!
