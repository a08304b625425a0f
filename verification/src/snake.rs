//! The snake's body: an ordered run of cells, head first, in which no cell
//! occurs twice.

use vstd::prelude::*;
use std::collections::VecDeque;
use crate::grid::Coordinate;

verus! {

/// The body of the snake. Its view is the sequence of its cells from the
/// head, at index 0, to the tail.
#[derive(Debug)]
pub struct Snake {
    cells: VecDeque<Coordinate>,
}

impl View for Snake {
    type V = Seq<Coordinate>;

    closed spec fn view(&self) -> Seq<Coordinate> {
        self.cells@
    }
}

/// What a sequence of cells must satisfy to be a snake: it has a head, and
/// no cell occurs twice.
pub open spec fn is_body(cells: Seq<Coordinate>) -> bool {
    cells.len() > 0 && cells.no_duplicates()
}

/// The body after a step onto `new_head` that keeps the tail.
pub open spec fn grown(cells: Seq<Coordinate>, new_head: Coordinate) -> Seq<Coordinate> {
    seq![new_head] + cells
}

/// The body after a step onto `new_head` that gives up the tail.
pub open spec fn advanced(cells: Seq<Coordinate>, new_head: Coordinate) -> Seq<Coordinate> {
    grown(cells, new_head).drop_last()
}

/// A step onto a cell that the body does not hold, keeping the tail, gives a
/// body again, one cell longer.
pub proof fn growing_keeps_body(cells: Seq<Coordinate>, new_head: Coordinate)
    requires
        is_body(cells),
        !cells.contains(new_head),
    ensures
        is_body(grown(cells, new_head)),
        grown(cells, new_head).len() == cells.len() + 1,
{
    let g = grown(cells, new_head);
    assert forall|i: int, j: int| 0 <= i < g.len() && 0 <= j < g.len() && i != j implies g[i]
        != g[j] by {
        if i > 0 {
            assert(g[i] == cells[i - 1]);
        }
        if j > 0 {
            assert(g[j] == cells[j - 1]);
        }
    }
}

/// A step onto a cell that the body does not hold, giving up the tail, gives
/// a body again, of the same length.
pub proof fn advancing_keeps_body(cells: Seq<Coordinate>, new_head: Coordinate)
    requires
        is_body(cells),
        !cells.contains(new_head),
    ensures
        is_body(advanced(cells, new_head)),
        advanced(cells, new_head).len() == cells.len(),
{
    growing_keeps_body(cells, new_head);
    let g = grown(cells, new_head);
    let a = advanced(cells, new_head);
    assert forall|i: int, j: int| 0 <= i < a.len() && 0 <= j < a.len() && i != j implies a[i]
        != a[j] by {
        assert(a[i] == g[i]);
        assert(a[j] == g[j]);
    }
}

impl Snake {
    /// Whether the value is a snake: see [`is_body`].
    pub open spec fn wf(&self) -> bool {
        is_body(self@)
    }

    /// A snake of one cell.
    pub fn new(head: Coordinate) -> (snake: Snake)
        ensures
            snake.wf(),
            snake@ == seq![head],
    {
        let mut cells: VecDeque<Coordinate> = VecDeque::new();
        cells.push_back(head);
        assert(cells@ =~= seq![head]);
        Snake { cells }
    }

    /// The snake that holds exactly `cells`, head first; `None` where
    /// `cells` is empty or holds a cell twice.
    pub fn from_cells(cells: &Vec<Coordinate>) -> (snake: Option<Snake>)
        ensures
            snake is Some <==> is_body(cells@),
            snake matches Some(s) ==> s@ == cells@,
    {
        if cells.len() == 0 {
            return None;
        }
        let mut body: VecDeque<Coordinate> = VecDeque::new();
        let mut i: usize = 0;
        while i < cells.len()
            invariant
                i <= cells.len(),
                body@ == cells@.take(i as int),
                body@.no_duplicates(),
            decreases cells.len() - i,
        {
            let cell = cells[i];
            let mut j: usize = 0;
            while j < i
                invariant
                    j <= i,
                    i < cells.len(),
                    cell == cells@[i as int],
                    forall|k: int| 0 <= k < j ==> cells@[k] != cell,
                decreases i - j,
            {
                if cells[j] == cell {
                    return None;
                }
                j += 1;
            }
            body.push_back(cell);
            proof {
                assert(body@ =~= cells@.take(i + 1));
            }
            i += 1;
        }
        proof {
            assert(cells@.take(i as int) =~= cells@);
        }
        Some(Snake { cells: body })
    }

    /// The number of cells.
    pub fn len(&self) -> (n: usize)
        ensures
            n == self@.len(),
    {
        self.cells.len()
    }

    /// The cell at the front.
    pub fn head(&self) -> (cell: Coordinate)
        requires
            self.wf(),
        ensures
            cell == self@[0],
    {
        self.cells[0]
    }

    /// The cell at the back, the first to go when the snake moves on.
    pub fn tail(&self) -> (cell: Coordinate)
        requires
            self.wf(),
        ensures
            cell == self@.last(),
    {
        self.cells[self.cells.len() - 1]
    }

    /// Whether the body holds `cell`.
    pub fn contains(&self, cell: Coordinate) -> (found: bool)
        ensures
            found == self@.contains(cell),
    {
        let mut i: usize = 0;
        while i < self.cells.len()
            invariant
                i <= self.cells.len(),
                forall|k: int| 0 <= k < i ==> self.cells@[k] != cell,
            decreases self.cells.len() - i,
        {
            if self.cells[i] == cell {
                return true;
            }
            i += 1;
        }
        false
    }

    /// The cells from head to tail.
    pub fn cells(&self) -> (out: Vec<Coordinate>)
        ensures
            out@ == self@,
    {
        let mut out: Vec<Coordinate> = Vec::new();
        let mut i: usize = 0;
        while i < self.cells.len()
            invariant
                i <= self.cells.len(),
                out@ == self.cells@.take(i as int),
            decreases self.cells.len() - i,
        {
            out.push(self.cells[i]);
            proof {
                assert(out@ =~= self.cells@.take(i + 1));
            }
            i += 1;
        }
        proof {
            assert(self.cells@.take(i as int) =~= self.cells@);
        }
        out
    }

    /// Steps onto `new_head` and keeps the tail: the snake is one cell
    /// longer.
    pub fn grow(&mut self, new_head: Coordinate)
        requires
            old(self).wf(),
            !old(self)@.contains(new_head),
        ensures
            final(self).wf(),
            final(self)@ == grown(old(self)@, new_head),
    {
        proof {
            growing_keeps_body(self@, new_head);
        }
        self.cells.push_front(new_head);
    }

    /// Steps onto `new_head` and gives up the tail, which is returned: the
    /// snake keeps its length.
    pub fn advance(&mut self, new_head: Coordinate) -> (vacated: Coordinate)
        requires
            old(self).wf(),
            !old(self)@.contains(new_head),
        ensures
            final(self).wf(),
            final(self)@ == advanced(old(self)@, new_head),
            vacated == old(self)@.last(),
    {
        proof {
            advancing_keeps_body(self@, new_head);
        }
        let vacated = self.tail();
        self.cells.push_front(new_head);
        let _ = self.cells.pop_back();
        proof {
            assert(self@ =~= advanced(old(self)@, new_head));
        }
        vacated
    }
}

} // verus!
