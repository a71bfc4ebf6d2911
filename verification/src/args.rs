//! Where a template goes inside a larger board: margins from an alignment or
//! from a list of numbers.

use vstd::prelude::*;

verus! {

/// Where a template sits inside a larger board.
#[derive(Copy, Clone, Debug, PartialEq, Eq)]
pub enum Alignment {
    TopLeft,
    Top,
    TopRight,
    Left,
    Center,
    Right,
    BottomLeft,
    Bottom,
    BottomRight,
}

/// Half of `v`, rounded towards 0.
pub open spec fn half(v: int) -> int {
    if v >= 0 {
        v / 2
    } else {
        -((-v) / 2)
    }
}

/// The margins `(top, right, bottom, left)` that a list of one to four
/// numbers stands for: one number for all sides; two for top and bottom, then
/// left and right; three for top, then left and right, then bottom; four for
/// top, right, bottom and left.
pub open spec fn padding_of(padding: Seq<isize>) -> (isize, isize, isize, isize) {
    if padding.len() == 1 {
        (padding[0], padding[0], padding[0], padding[0])
    } else if padding.len() == 2 {
        (padding[0], padding[1], padding[0], padding[1])
    } else if padding.len() == 3 {
        (padding[0], padding[1], padding[2], padding[1])
    } else {
        (padding[0], padding[1], padding[2], padding[3])
    }
}

/// The margins `(before, after)` along one direction that share out
/// `padding` for a template at the start, in the middle or at the end.
pub open spec fn share_out(place: int, padding: int) -> (int, int) {
    if place < 0 {
        (0, padding)
    } else if place == 0 {
        (half(padding), padding - half(padding))
    } else {
        (padding, 0)
    }
}

impl Alignment {
    /// -1 for the top row of alignments, 0 for the middle, 1 for the bottom.
    pub open spec fn vertical(self) -> int {
        match self {
            Alignment::TopLeft | Alignment::Top | Alignment::TopRight => -1,
            Alignment::Left | Alignment::Center | Alignment::Right => 0,
            Alignment::BottomLeft | Alignment::Bottom | Alignment::BottomRight => 1,
        }
    }

    /// -1 for the left column of alignments, 0 for the middle, 1 for the
    /// right.
    pub open spec fn horizontal(self) -> int {
        match self {
            Alignment::TopLeft | Alignment::Left | Alignment::BottomLeft => -1,
            Alignment::Top | Alignment::Center | Alignment::Bottom => 0,
            Alignment::TopRight | Alignment::Right | Alignment::BottomRight => 1,
        }
    }
}

/// The margins `(top, right, bottom, left)` that place a template in a board
/// with `horizontal_padding` columns and `vertical_padding` rows to spare.
pub open spec fn margins_of(align: Alignment, horizontal_padding: int, vertical_padding: int) -> (
    int,
    int,
    int,
    int,
) {
    let (top, bottom) = share_out(align.vertical(), vertical_padding);
    let (left, right) = share_out(align.horizontal(), horizontal_padding);
    (top, right, bottom, left)
}

/// The margins that a list of one to four numbers stands for.
pub fn parse_padding(padding: &[isize]) -> (margins: (isize, isize, isize, isize))
    requires
        1 <= padding@.len() <= 4,
    ensures
        margins == padding_of(padding@),
{
    if padding.len() == 1 {
        (padding[0], padding[0], padding[0], padding[0])
    } else if padding.len() == 2 {
        (padding[0], padding[1], padding[0], padding[1])
    } else if padding.len() == 3 {
        (padding[0], padding[1], padding[2], padding[1])
    } else {
        (padding[0], padding[1], padding[2], padding[3])
    }
}

/// The margins that place a template in a board with `horizontal_padding`
/// columns and `vertical_padding` rows to spare.  In the middle the spare
/// rows and columns are halved, and an odd one goes to the bottom or to the
/// right.
pub fn alignment_padding(align: Alignment, horizontal_padding: isize, vertical_padding: isize) -> (margins:
    (isize, isize, isize, isize))
    ensures
        (margins.0 as int, margins.1 as int, margins.2 as int, margins.3 as int) == margins_of(
            align,
            horizontal_padding as int,
            vertical_padding as int,
        ),
{
    let (top, bottom) = match align {
        Alignment::TopLeft | Alignment::Top | Alignment::TopRight => (0, vertical_padding),
        Alignment::Left | Alignment::Center | Alignment::Right => (
            vertical_padding / 2,
            vertical_padding / 2 + vertical_padding % 2,
        ),
        Alignment::BottomLeft | Alignment::Bottom | Alignment::BottomRight => (vertical_padding, 0),
    };
    let (left, right) = match align {
        Alignment::TopLeft | Alignment::Left | Alignment::BottomLeft => (0, horizontal_padding),
        Alignment::Top | Alignment::Center | Alignment::Bottom => (
            horizontal_padding / 2,
            horizontal_padding / 2 + horizontal_padding % 2,
        ),
        Alignment::TopRight | Alignment::Right | Alignment::BottomRight => (horizontal_padding, 0),
    };
    (top, right, bottom, left)
}

} // verus!
