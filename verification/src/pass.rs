//! One update pass over the grid, as a function of the grid and of the
//! coins that the pass takes.
//!
//! The pass visits the rows from the bottom one upwards and each row from
//! left to right. A visit moves the particle in the cell, if there is one,
//! by gravity and settling. Only a particle that cannot fall takes a coin,
//! which orders its two diagonals.

use crate::grid::{stepped, Direction};
use crate::model::GridView;
use vstd::prelude::*;

verus! {

/// The `k`-th coin of `draws`: whether the left diagonal goes first. Past
/// the end of `draws` the right one does.
pub open spec fn coin(draws: Seq<bool>, k: nat) -> bool {
    k < draws.len() && draws[k as int]
}

/// How far a pass has come.
pub struct Pass {
    /// The grid as the visits so far have left it.
    pub grid: GridView,
    /// How many coins the visits so far have taken.
    pub used: nat,
    /// For each place in `grid.cells`, the place where its content stood
    /// when the pass began.
    pub origin: Seq<int>,
}

impl Pass {
    /// A pass over `grid` before its first visit.
    pub open spec fn start(grid: GridView) -> Pass {
        Pass { grid, used: 0, origin: Seq::new(grid.cells.len(), |i: int| i) }
    }

    /// This pass after the particle at `p` has taken `step`.
    pub open spec fn moved(self, p: (int, int), step: Option<Direction>) -> Pass {
        match step {
            Some(dir) => {
                let a = self.grid.index_of(p);
                let b = self.grid.index_of(stepped(p, dir));
                Pass {
                    grid: self.grid.swapped(p, stepped(p, dir)),
                    origin: self.origin.update(a, self.origin[b]).update(b, self.origin[a]),
                    ..self
                }
            },
            None => self,
        }
    }

    /// Whether the visit of `p` takes a coin: a particle stands there and
    /// cannot fall.
    pub open spec fn takes_coin(self, p: (int, int)) -> bool {
        self.grid.at(p).is_mobile() && !self.grid.can_move(Direction::Down, p)
    }

    /// This pass after the visit of `p`.
    pub open spec fn visit(self, p: (int, int), draws: Seq<bool>) -> Pass {
        if !self.grid.at(p).is_mobile() {
            self
        } else if self.grid.can_move(Direction::Down, p) {
            self.moved(p, Some(Direction::Down))
        } else {
            Pass {
                used: self.used + 1,
                ..self.moved(p, self.grid.settle_direction(p, coin(draws, self.used)))
            }
        }
    }

    /// This pass after the visits of the first `n` cells of row `y`.
    pub open spec fn scan_row(self, y: int, n: nat, draws: Seq<bool>) -> Pass
        decreases n,
    {
        if n == 0 {
            self
        } else {
            self.scan_row(y, (n - 1) as nat, draws).visit((n - 1, y), draws)
        }
    }

    /// This pass after the visits of the `m` lowest rows.
    pub open spec fn scan_rows(self, m: nat, draws: Seq<bool>) -> Pass
        decreases m,
    {
        if m == 0 {
            self
        } else {
            self.scan_rows((m - 1) as nat, draws).scan_row(
                self.grid.height - m,
                self.grid.width as nat,
                draws,
            )
        }
    }
}

/// The whole pass over `grid`, with the coins of `draws`.
pub open spec fn tick_pass(grid: GridView, draws: Seq<bool>) -> Pass {
    Pass::start(grid).scan_rows(grid.height as nat, draws)
}

/// The grid one tick after `grid`, with the coins of `draws`.
pub open spec fn tick(grid: GridView, draws: Seq<bool>) -> GridView {
    tick_pass(grid, draws).grid
}

/// How many coins the tick from `grid` takes, with the coins of `draws`.
pub open spec fn coins_taken(grid: GridView, draws: Seq<bool>) -> nat {
    tick_pass(grid, draws).used
}

/// Exchanging two cells keeps the grid well-formed and keeps what it holds.
pub proof fn lemma_swapped(grid: GridView, a: (int, int), b: (int, int))
    requires
        grid.wf(),
        grid.in_bounds(a),
        grid.in_bounds(b),
    ensures
        grid.swapped(a, b).wf(),
        grid.swapped(a, b).cells.to_multiset() == grid.cells.to_multiset(),
{
    broadcast use vstd::multiset::group_multiset_axioms;

    grid.lemma_index_in_range(a);
    grid.lemma_index_in_range(b);
    let i = grid.index_of(a);
    let j = grid.index_of(b);
    let once = grid.cells.update(i, grid.cells[j]);
    vstd::seq_lib::to_multiset_update(grid.cells, i, grid.cells[j]);
    vstd::seq_lib::to_multiset_update(once, j, grid.cells[i]);
    vstd::seq_lib::to_multiset_contains(grid.cells, grid.cells[i]);
    vstd::seq_lib::to_multiset_contains(grid.cells, grid.cells[j]);
    assert(grid.cells.contains(grid.cells[i]));
    assert(grid.cells.contains(grid.cells[j]));
    assert(grid.swapped(a, b).cells.to_multiset() =~= grid.cells.to_multiset());
}

/// A visit keeps the grid well-formed, keeps what it holds, and gives no
/// coin back.
pub proof fn lemma_visit_keeps(pass: Pass, p: (int, int), draws: Seq<bool>)
    requires
        pass.grid.wf(),
        pass.grid.in_bounds(p),
    ensures
        pass.visit(p, draws).grid.wf(),
        pass.visit(p, draws).grid.width == pass.grid.width,
        pass.visit(p, draws).grid.height == pass.grid.height,
        pass.visit(p, draws).grid.cell_size == pass.grid.cell_size,
        pass.visit(p, draws).grid.cells.to_multiset() == pass.grid.cells.to_multiset(),
        pass.used <= pass.visit(p, draws).used <= pass.used + 1,
        pass.visit(p, draws).used == pass.used + 1 <==> pass.takes_coin(p),
{
    let step = if !pass.grid.at(p).is_mobile() {
        None
    } else {
        pass.grid.settle_direction(p, coin(draws, pass.used))
    };
    match step {
        Some(dir) => {
            lemma_swapped(pass.grid, p, stepped(p, dir));
        },
        None => {},
    }
}

/// The visits of a row keep the grid well-formed and keep what it holds.
pub proof fn lemma_scan_row_keeps(pass: Pass, y: int, n: nat, draws: Seq<bool>)
    requires
        pass.grid.wf(),
        0 <= y < pass.grid.height,
        n <= pass.grid.width,
    ensures
        pass.scan_row(y, n, draws).grid.wf(),
        pass.scan_row(y, n, draws).grid.width == pass.grid.width,
        pass.scan_row(y, n, draws).grid.height == pass.grid.height,
        pass.scan_row(y, n, draws).grid.cell_size == pass.grid.cell_size,
        pass.scan_row(y, n, draws).grid.cells.to_multiset() == pass.grid.cells.to_multiset(),
    decreases n,
{
    if n > 0 {
        lemma_scan_row_keeps(pass, y, (n - 1) as nat, draws);
        lemma_visit_keeps(pass.scan_row(y, (n - 1) as nat, draws), (n - 1, y), draws);
    }
}

/// The visits of the lowest rows keep the grid well-formed and keep what
/// it holds.
pub proof fn lemma_scan_rows_keeps(pass: Pass, m: nat, draws: Seq<bool>)
    requires
        pass.grid.wf(),
        m <= pass.grid.height,
    ensures
        pass.scan_rows(m, draws).grid.wf(),
        pass.scan_rows(m, draws).grid.width == pass.grid.width,
        pass.scan_rows(m, draws).grid.height == pass.grid.height,
        pass.scan_rows(m, draws).grid.cell_size == pass.grid.cell_size,
        pass.scan_rows(m, draws).grid.cells.to_multiset() == pass.grid.cells.to_multiset(),
    decreases m,
{
    if m > 0 {
        lemma_scan_rows_keeps(pass, (m - 1) as nat, draws);
        lemma_scan_row_keeps(
            pass.scan_rows((m - 1) as nat, draws),
            pass.grid.height - m,
            pass.grid.width as nat,
            draws,
        );
    }
}

/// A visit reads no coin but the next one.
pub proof fn lemma_visit_agrees(pass: Pass, p: (int, int), d1: Seq<bool>, d2: Seq<bool>)
    requires
        forall|k: nat| pass.used <= k < pass.visit(p, d1).used ==> coin(d1, k) == coin(d2, k),
    ensures
        pass.visit(p, d1) == pass.visit(p, d2),
{
    if pass.takes_coin(p) {
        assert(coin(d1, pass.used) == coin(d2, pass.used));
    }
}

/// The visits of a row read no coins but those they take.
pub proof fn lemma_scan_row_agrees(pass: Pass, y: int, n: nat, d1: Seq<bool>, d2: Seq<bool>)
    requires
        forall|k: nat| pass.used <= k < pass.scan_row(y, n, d1).used ==> coin(d1, k) == coin(d2, k),
    ensures
        pass.scan_row(y, n, d1) == pass.scan_row(y, n, d2),
    decreases n,
{
    if n > 0 {
        let before = pass.scan_row(y, (n - 1) as nat, d1);
        lemma_used_grows_in_row(pass, y, (n - 1) as nat, d1);
        lemma_scan_row_agrees(pass, y, (n - 1) as nat, d1, d2);
        lemma_visit_agrees(before, (n - 1, y), d1, d2);
    }
}

/// The visits of a row give no coin back.
pub proof fn lemma_used_grows_in_row(pass: Pass, y: int, n: nat, draws: Seq<bool>)
    ensures
        pass.used <= pass.scan_row(y, n, draws).used,
    decreases n,
{
    if n > 0 {
        lemma_used_grows_in_row(pass, y, (n - 1) as nat, draws);
    }
}

/// The visits of the lowest rows give no coin back.
pub proof fn lemma_used_grows_in_rows(pass: Pass, m: nat, draws: Seq<bool>)
    ensures
        pass.used <= pass.scan_rows(m, draws).used,
    decreases m,
{
    if m > 0 {
        lemma_used_grows_in_rows(pass, (m - 1) as nat, draws);
        lemma_used_grows_in_row(
            pass.scan_rows((m - 1) as nat, draws),
            pass.grid.height - m,
            pass.grid.width as nat,
            draws,
        );
    }
}

/// The visits of the lowest rows read no coins but those they take.
pub proof fn lemma_scan_rows_agrees(pass: Pass, m: nat, d1: Seq<bool>, d2: Seq<bool>)
    requires
        forall|k: nat| pass.used <= k < pass.scan_rows(m, d1).used ==> coin(d1, k) == coin(d2, k),
    ensures
        pass.scan_rows(m, d1) == pass.scan_rows(m, d2),
    decreases m,
{
    if m > 0 {
        let before = pass.scan_rows((m - 1) as nat, d1);
        lemma_used_grows_in_rows(pass, (m - 1) as nat, d1);
        lemma_used_grows_in_row(before, pass.grid.height - m, pass.grid.width as nat, d1);
        lemma_scan_rows_agrees(pass, (m - 1) as nat, d1, d2);
        lemma_scan_row_agrees(before, pass.grid.height - m, pass.grid.width as nat, d1, d2);
    }
}

} // verus!
