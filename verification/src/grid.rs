//! Cells of the grid and the four directions of travel.

use vstd::prelude::*;

verus! {

/// A cell of the grid: column first, then row.
#[derive(Clone, Copy, Debug, PartialEq, Eq, Structural)]
pub struct Coordinate {
    pub col: u16,
    pub row: u16,
}

/// The direction in which the snake travels.
#[derive(Clone, Copy, Debug, PartialEq, Eq, Structural)]
pub enum Heading {
    Up,
    Down,
    Left,
    Right,
}

impl Heading {
    /// The heading that points the other way.
    pub open spec fn spec_opposite(self) -> Heading {
        match self {
            Heading::Up => Heading::Down,
            Heading::Down => Heading::Up,
            Heading::Left => Heading::Right,
            Heading::Right => Heading::Left,
        }
    }

    /// Whether the heading runs along the rows' axis.
    pub open spec fn spec_vertical(self) -> bool {
        self == Heading::Up || self == Heading::Down
    }

    #[verifier::when_used_as_spec(spec_opposite)]
    pub fn opposite(self) -> (r: Heading)
        ensures
            r == self.spec_opposite(),
    {
        match self {
            Heading::Up => Heading::Down,
            Heading::Down => Heading::Up,
            Heading::Left => Heading::Right,
            Heading::Right => Heading::Left,
        }
    }

    #[verifier::when_used_as_spec(spec_vertical)]
    pub fn vertical(self) -> (r: bool)
        ensures
            r == self.spec_vertical(),
    {
        match self {
            Heading::Up | Heading::Down => true,
            Heading::Left | Heading::Right => false,
        }
    }
}

/// Turning round twice gives the heading one started with.
pub proof fn opposite_is_an_involution(h: Heading)
    ensures
        h.opposite().opposite() == h,
{
}

/// No heading is its own opposite.
pub proof fn opposite_differs(h: Heading)
    ensures
        h.opposite() != h,
{
}

/// The cell one step from `from` along `heading`, or `None` where that step
/// would leave the grid's lower edge: a move up from row 0, or left from
/// column 0.
pub open spec fn step_from(from: Coordinate, heading: Heading) -> Option<Coordinate> {
    match heading {
        Heading::Up => if from.row == 0 {
            None
        } else {
            Some(Coordinate { col: from.col, row: (from.row - 1) as u16 })
        },
        Heading::Down => Some(Coordinate { col: from.col, row: (from.row + 1) as u16 }),
        Heading::Left => if from.col == 0 {
            None
        } else {
            Some(Coordinate { col: (from.col - 1) as u16, row: from.row })
        },
        Heading::Right => Some(Coordinate { col: (from.col + 1) as u16, row: from.row }),
    }
}

/// A step never ends on the cell it started from, so a tick that moves the
/// head at all moves it to another cell.
pub proof fn step_leaves_cell(from: Coordinate, heading: Heading)
    requires
        heading == Heading::Down ==> from.row < u16::MAX,
        heading == Heading::Right ==> from.col < u16::MAX,
    ensures
        step_from(from, heading) != Some(from),
{
}

/// Whether `cell` lies on a grid whose columns are `0..bounds.col` and whose
/// rows are `0..bounds.row`.
pub open spec fn within(bounds: Coordinate, cell: Coordinate) -> bool {
    cell.col < bounds.col && cell.row < bounds.row
}

impl Coordinate {
    /// The neighbouring cell along `heading`, see [`step_from`].
    pub fn step(self, heading: Heading) -> (next: Option<Coordinate>)
        requires
            heading == Heading::Down ==> self.row < u16::MAX,
            heading == Heading::Right ==> self.col < u16::MAX,
        ensures
            next == step_from(self, heading),
    {
        match heading {
            Heading::Up => if self.row == 0 {
                None
            } else {
                Some(Coordinate { col: self.col, row: self.row - 1 })
            },
            Heading::Down => Some(Coordinate { col: self.col, row: self.row + 1 }),
            Heading::Left => if self.col == 0 {
                None
            } else {
                Some(Coordinate { col: self.col - 1, row: self.row })
            },
            Heading::Right => Some(Coordinate { col: self.col + 1, row: self.row }),
        }
    }

    /// Whether the cell lies on the grid that `bounds` spans.
    pub fn is_within(self, bounds: Coordinate) -> (r: bool)
        ensures
            r == within(bounds, self),
    {
        self.col < bounds.col && self.row < bounds.row
    }
}

} // verus!
