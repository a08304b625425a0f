//! From what a tick changed to the cells that must be redrawn.
//!
//! A tick touches at most four cells, however long the snake is. The
//! operations are data: the caller that owns the screen performs them in
//! order.

use vstd::prelude::*;
use crate::grid::Coordinate;

verus! {

/// What a cell is painted as: red for the head, blue for the trail behind
/// it, green for food.
#[derive(Clone, Copy, Debug, PartialEq, Eq, Structural)]
pub enum Color {
    Red,
    Blue,
    Green,
}

/// One operation on one cell of the screen.
#[derive(Clone, Copy, Debug, PartialEq, Eq, Structural)]
pub enum RenderOp {
    /// Show the cell in the given colour.
    Paint { cell: Coordinate, color: Color },
    /// Make the cell blank again.
    Clear { cell: Coordinate },
}

/// What one successful tick changed.
#[derive(Clone, Copy, Debug, PartialEq, Eq, Structural)]
pub struct Delta {
    /// Where the head was.
    pub old_head: Coordinate,
    /// Where the head is now.
    pub new_head: Coordinate,
    /// The cell that the tail left, unless the snake grew.
    pub vacated_tail: Option<Coordinate>,
    /// The food placed by this tick, if it placed any.
    pub new_food: Option<Coordinate>,
}

/// The operations for one tick: the former head turns blue, the new head
/// red, the cell that the tail left is cleared, and new food is painted
/// green, in that order.
pub open spec fn rendered(delta: Delta) -> Seq<RenderOp> {
    seq![
        RenderOp::Paint { cell: delta.old_head, color: Color::Blue },
        RenderOp::Paint { cell: delta.new_head, color: Color::Red },
    ] + match delta.vacated_tail {
        Some(cell) => seq![RenderOp::Clear { cell }],
        None => seq![],
    } + match delta.new_food {
        Some(cell) => seq![RenderOp::Paint { cell, color: Color::Green }],
        None => seq![],
    }
}

/// The operations that draw a game before its first tick: the head in red,
/// then the food in green.
pub open spec fn rendered_start(head: Coordinate, food: Option<Coordinate>) -> Seq<RenderOp> {
    seq![RenderOp::Paint { cell: head, color: Color::Red }] + match food {
        Some(cell) => seq![RenderOp::Paint { cell, color: Color::Green }],
        None => seq![],
    }
}

/// A tick is drawn with two to four operations, whatever the snake's length.
pub proof fn rendering_is_bounded(delta: Delta)
    ensures
        2 <= rendered(delta).len() <= 4,
{
}

/// Turns what a tick changed into operations on cells.
pub fn render(delta: &Delta) -> (ops: Vec<RenderOp>)
    ensures
        ops@ == rendered(*delta),
{
    let mut ops: Vec<RenderOp> = Vec::new();
    ops.push(RenderOp::Paint { cell: delta.old_head, color: Color::Blue });
    ops.push(RenderOp::Paint { cell: delta.new_head, color: Color::Red });
    match delta.vacated_tail {
        Some(cell) => {
            ops.push(RenderOp::Clear { cell });
        },
        None => {},
    }
    match delta.new_food {
        Some(cell) => {
            ops.push(RenderOp::Paint { cell, color: Color::Green });
        },
        None => {},
    }
    assert(ops@ =~= rendered(*delta));
    ops
}

/// The operations that draw a game before its first tick.
pub fn render_start(head: Coordinate, food: Option<Coordinate>) -> (ops: Vec<RenderOp>)
    ensures
        ops@ == rendered_start(head, food),
{
    let mut ops: Vec<RenderOp> = Vec::new();
    ops.push(RenderOp::Paint { cell: head, color: Color::Red });
    match food {
        Some(cell) => {
            ops.push(RenderOp::Paint { cell, color: Color::Green });
        },
        None => {},
    }
    assert(ops@ =~= rendered_start(head, food));
    ops
}

} // verus!
