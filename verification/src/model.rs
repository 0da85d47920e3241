//! The grid as a mathematical value: its dimensions and its cells in
//! row-major order.

use crate::grid::{stepped, Direction};
use crate::pixel::Pixel;
use vstd::multiset::Multiset;
use vstd::prelude::*;

verus! {

/// What a grid is, apart from how it is stored.
pub struct GridView {
    /// Pixels per cell along `x` and along `y`.
    pub cell_size: (int, int),
    /// Cells per row.
    pub width: int,
    /// Number of rows.
    pub height: int,
    /// The rows from `y == 0` downwards, each from `x == 0` rightwards.
    pub cells: Seq<Pixel>,
}

/// The diagonal that is tried first when the coin says `left_first`.
pub open spec fn first_diagonal(left_first: bool) -> Direction {
    if left_first {
        Direction::DownLeft
    } else {
        Direction::DownRight
    }
}

/// The diagonal that is tried after `first_diagonal`.
pub open spec fn second_diagonal(left_first: bool) -> Direction {
    if left_first {
        Direction::DownRight
    } else {
        Direction::DownLeft
    }
}

impl GridView {
    /// The dimensions are not negative and fit a coordinate, there is one
    /// cell per coordinate, and every cell holds a known material.
    pub open spec fn wf(self) -> bool {
        &&& 0 <= self.width <= i32::MAX
        &&& 0 <= self.height <= i32::MAX
        &&& self.cells.len() == self.width * self.height
        &&& forall|i: int| 0 <= i < self.cells.len() ==> (#[trigger] self.cells[i]).is_valid()
    }

    /// A grid of the given size with nothing in it.
    pub open spec fn blank(cell_size: (int, int), width: int, height: int) -> GridView {
        GridView {
            cell_size,
            width,
            height,
            cells: Seq::new((width * height) as nat, |i: int| Pixel(0)),
        }
    }

    pub open spec fn in_bounds(self, p: (int, int)) -> bool {
        0 <= p.0 < self.width && 0 <= p.1 < self.height
    }

    /// Where the cell at `p` stands in `cells`.
    pub open spec fn index_of(self, p: (int, int)) -> int {
        p.1 * self.width + p.0
    }

    pub open spec fn at(self, p: (int, int)) -> Pixel {
        self.cells[self.index_of(p)]
    }

    /// Whether `p` is a cell of the grid that holds nothing.
    pub open spec fn is_free(self, p: (int, int)) -> bool {
        self.in_bounds(p) && self.at(p).is_empty()
    }

    /// Whether a particle at `from` may step in `dir`: the cell it would
    /// reach is on the grid and holds nothing.
    pub open spec fn can_move(self, dir: Direction, from: (int, int)) -> bool {
        self.is_free(stepped(from, dir))
    }

    /// This grid with `pixel` at `p`.
    pub open spec fn with_cell(self, p: (int, int), pixel: Pixel) -> GridView {
        GridView { cells: self.cells.update(self.index_of(p), pixel), ..self }
    }

    /// This grid with the cells at `a` and `b` exchanged.
    pub open spec fn swapped(self, a: (int, int), b: (int, int)) -> GridView {
        GridView {
            cells: self.cells.update(self.index_of(a), self.at(b)).update(
                self.index_of(b),
                self.at(a),
            ),
            ..self
        }
    }

    /// What the grid holds, each cell value as often as it occurs.
    pub open spec fn contents(self) -> Multiset<Pixel> {
        self.cells.to_multiset()
    }

    /// The particles and other matter of the grid, each value as often as
    /// it occurs: `contents` without the empty cells.
    pub open spec fn particles(self) -> Multiset<Pixel> {
        self.contents().filter(|pixel: Pixel| !pixel.is_empty())
    }

    /// Whether the cell `p` is the one at `from` in `cells` or a neighbour
    /// one step down from it: straight, to the left or to the right.
    pub open spec fn one_step_above(self, from: int, p: (int, int)) -> bool {
        let up = (p.0, p.1 - 1);
        let up_left = (p.0 - 1, p.1 - 1);
        let up_right = (p.0 + 1, p.1 - 1);
        ||| from == self.index_of(p)
        ||| self.in_bounds(up) && from == self.index_of(up)
        ||| self.in_bounds(up_left) && from == self.index_of(up_left)
        ||| self.in_bounds(up_right) && from == self.index_of(up_right)
    }

    /// Where gravity and settling send the particle at `p`: straight down
    /// if it can go there, else to the first diagonal it can go to, in the
    /// order that the coin gives. `None` if all three are barred.
    pub open spec fn settle_direction(self, p: (int, int), left_first: bool) -> Option<Direction> {
        if self.can_move(Direction::Down, p) {
            Some(Direction::Down)
        } else if self.can_move(first_diagonal(left_first), p) {
            Some(first_diagonal(left_first))
        } else if self.can_move(second_diagonal(left_first), p) {
            Some(second_diagonal(left_first))
        } else {
            None
        }
    }

    /// This grid after the particle at `p` has taken `step`.
    pub open spec fn moved(self, p: (int, int), step: Option<Direction>) -> GridView {
        match step {
            Some(dir) => self.swapped(p, stepped(p, dir)),
            None => self,
        }
    }

    /// Every cell of the grid has a place in `cells`.
    pub proof fn lemma_index_in_range(self, p: (int, int))
        requires
            self.wf(),
            self.in_bounds(p),
        ensures
            0 <= self.index_of(p) < self.cells.len(),
    {
        let w = self.width;
        let h = self.height;
        assert(p.1 * w + p.0 < w * h) by (nonlinear_arith)
            requires
                0 <= p.0 < w,
                0 <= p.1 < h,
        ;
        assert(0 <= p.1 * w) by (nonlinear_arith)
            requires
                0 <= p.1,
                0 <= w,
        ;
    }

    /// Two cells of the grid that share a place in `cells` are one cell.
    pub proof fn lemma_index_injective(self, p: (int, int), q: (int, int))
        requires
            self.in_bounds(p),
            self.in_bounds(q),
            self.index_of(p) == self.index_of(q),
        ensures
            p == q,
    {
        let w = self.width;
        assert(p.1 == q.1 && p.0 == q.0) by (nonlinear_arith)
            requires
                0 <= p.0 < w,
                0 <= q.0 < w,
                p.1 * w + p.0 == q.1 * w + q.0,
        ;
    }
}

} // verus!
