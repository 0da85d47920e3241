//! What holds of every tick: nothing is lost or made, no particle moves
//! twice, gravity comes first, a hemmed-in particle stays, and the coins
//! taken decide the outcome.

use crate::grid::{stepped, Direction};
use crate::model::GridView;
use crate::particle::ParticleView;
use crate::pass::{
    coin, coins_taken, lemma_scan_rows_agrees, lemma_scan_rows_keeps, lemma_swapped, tick,
    tick_pass, Pass,
};
use vstd::prelude::*;

verus! {

/// A tick leaves the grid well-formed and of the same size, and the cells
/// after it are the cells before it in another arrangement: each value,
/// material and fill level, occurs as often as before.
pub proof fn lemma_tick_conserves(grid: GridView, draws: Seq<bool>)
    requires
        grid.wf(),
    ensures
        tick(grid, draws).wf(),
        tick(grid, draws).width == grid.width,
        tick(grid, draws).height == grid.height,
        tick(grid, draws).cell_size == grid.cell_size,
        tick(grid, draws).contents() == grid.contents(),
        tick(grid, draws).particles() == grid.particles(),
{
    lemma_scan_rows_keeps(Pass::start(grid), grid.height as nat, draws);
}

/// Two ticks from the same grid that are given the same coins, as far as
/// the first of them takes any, end in the same grid.
pub proof fn lemma_tick_deterministic(grid: GridView, d1: Seq<bool>, d2: Seq<bool>)
    requires
        forall|k: nat| k < coins_taken(grid, d1) ==> coin(d1, k) == coin(d2, k),
    ensures
        tick(grid, d1) == tick(grid, d2),
        coins_taken(grid, d1) == coins_taken(grid, d2),
{
    lemma_scan_rows_agrees(Pass::start(grid), grid.height as nat, d1, d2);
}

/// A particle with a free cell below it steps straight down, whatever the
/// coins say.
pub proof fn lemma_gravity_first(
    grid: GridView,
    particle: ParticleView,
    left_first: bool,
    go_left: bool,
)
    requires
        grid.can_move(Direction::Down, particle.pos),
    ensures
        particle.step(grid, left_first, go_left) == Some(Direction::Down),
{
}

/// In a pass, a particle with a free cell below it changes places with
/// that cell and takes no coin.
pub proof fn lemma_visit_falls(pass: Pass, p: (int, int), draws: Seq<bool>)
    requires
        pass.grid.at(p).is_mobile(),
        pass.grid.can_move(Direction::Down, p),
    ensures
        pass.visit(p, draws).grid == pass.grid.swapped(p, stepped(p, Direction::Down)),
        pass.visit(p, draws).used == pass.used,
{
}

/// A particle that can go neither down nor to either diagonal, and does
/// not spread sideways, stays.
pub proof fn lemma_hemmed_in_stays(
    grid: GridView,
    particle: ParticleView,
    left_first: bool,
    go_left: bool,
)
    requires
        !grid.can_move(Direction::Down, particle.pos),
        !grid.can_move(Direction::DownLeft, particle.pos),
        !grid.can_move(Direction::DownRight, particle.pos),
        !particle.spreads(),
    ensures
        particle.step(grid, left_first, go_left) == None::<Direction>,
        grid.moved(particle.pos, particle.step(grid, left_first, go_left)) == grid,
        particle.after(particle.step(grid, left_first, go_left)) == particle,
{
}

/// In a pass, the visit of a cell whose three lower neighbours are barred
/// leaves the grid as it was.
pub proof fn lemma_visit_stays(pass: Pass, p: (int, int), draws: Seq<bool>)
    requires
        !pass.grid.can_move(Direction::Down, p),
        !pass.grid.can_move(Direction::DownLeft, p),
        !pass.grid.can_move(Direction::DownRight, p),
    ensures
        pass.visit(p, draws).grid == pass.grid,
        pass.visit(p, draws).origin == pass.origin,
{
}

/// Whether the pass has visited `p` once it has done the rows below `y`
/// and the first `n` cells of row `y`.
spec fn visited(p: (int, int), y: int, n: int) -> bool {
    p.1 > y || (p.1 == y && p.0 < n)
}

/// Whether `pass` has so far only rearranged the cells of `start`, and
/// has moved each particle at most once, by one step: `origin` names for
/// each place a different place of `start` with the same content, the
/// cells not yet visited are where they were, and the content of a visited
/// cell, if it is a particle, stood there or one step above.
spec fn traced(start: GridView, pass: Pass, y: int, n: int) -> bool {
    let grid = pass.grid;
    let len = grid.cells.len();
    &&& grid.wf()
    &&& grid.width == start.width
    &&& grid.height == start.height
    &&& start.cells.len() == len
    &&& pass.origin.len() == len
    &&& forall|i: int|
        0 <= i < len ==> 0 <= #[trigger] pass.origin[i] < len && grid.cells[i]
            == start.cells[pass.origin[i]]
    &&& forall|i: int, j: int|
        0 <= i < len && 0 <= j < len && i != j ==> #[trigger] pass.origin[i]
            != #[trigger] pass.origin[j]
    &&& forall|p: (int, int)|
        grid.in_bounds(p) && !visited(p, y, n) ==> pass.origin[#[trigger] grid.index_of(p)]
            == grid.index_of(p)
    &&& forall|p: (int, int)|
        grid.in_bounds(p) && visited(p, y, n) && !(#[trigger] grid.at(p)).is_empty()
            ==> grid.one_step_above(pass.origin[grid.index_of(p)], p)
}

/// A visit keeps the trace.
proof fn lemma_visit_traced(start: GridView, pass: Pass, p: (int, int), draws: Seq<bool>)
    requires
        traced(start, pass, p.1, p.0),
        pass.grid.in_bounds(p),
    ensures
        traced(start, pass.visit(p, draws), p.1, p.0 + 1),
{
    let grid = pass.grid;
    let next = pass.visit(p, draws);
    let len = grid.cells.len() as int;
    let step = if !grid.at(p).is_mobile() {
        None
    } else {
        grid.settle_direction(p, coin(draws, pass.used))
    };
    assert(next.grid == grid.moved(p, step));
    assert(next.origin == pass.moved(p, step).origin);
    grid.lemma_index_in_range(p);
    let a = grid.index_of(p);
    assert(!visited(p, p.1, p.0));
    assert(pass.origin[a] == a);
    match step {
        None => {
            assert forall|r: (int, int)|
                next.grid.in_bounds(r) && visited(r, p.1, p.0 + 1) && !(#[trigger] next.grid.at(
                    r,
                )).is_empty() implies next.grid.one_step_above(
                next.origin[next.grid.index_of(r)],
                r,
            ) by {
                if r != p {
                    assert(visited(r, p.1, p.0));
                }
            }
            assert forall|r: (int, int)|
                next.grid.in_bounds(r) && !visited(r, p.1, p.0 + 1) implies next.origin[#[trigger] next.grid.index_of(
                    r,
                )] == next.grid.index_of(r) by {
                assert(!visited(r, p.1, p.0));
            }
        },
        Some(dir) => {
            let q = stepped(p, dir);
            assert(grid.can_move(dir, p));
            assert(dir == Direction::Down || dir == Direction::DownLeft || dir
                == Direction::DownRight);
            assert(grid.in_bounds(q));
            assert(grid.at(q).is_empty());
            grid.lemma_index_in_range(q);
            lemma_swapped(grid, p, q);
            let b = grid.index_of(q);
            assert(a != b) by {
                if a == b {
                    grid.lemma_index_injective(p, q);
                }
            }
            assert(next.grid.cells[a] == grid.cells[b]);
            assert(next.grid.cells[b] == grid.cells[a]);
            assert(next.origin[a] == pass.origin[b]);
            assert(next.origin[b] == pass.origin[a]);
            assert forall|i: int| 0 <= i < len implies 0 <= #[trigger] next.origin[i] < len
                && next.grid.cells[i] == start.cells[next.origin[i]] by {
                if i == a {
                } else if i == b {
                } else {
                    assert(next.origin[i] == pass.origin[i]);
                    assert(next.grid.cells[i] == grid.cells[i]);
                }
            }
            assert forall|i: int, j: int| 0 <= i < len && 0 <= j < len && i != j implies #[trigger] next.origin[i]
                != #[trigger] next.origin[j] by {
                let oi = if i == a {
                    b
                } else if i == b {
                    a
                } else {
                    i
                };
                let oj = if j == a {
                    b
                } else if j == b {
                    a
                } else {
                    j
                };
                assert(next.origin[i] == pass.origin[oi]);
                assert(next.origin[j] == pass.origin[oj]);
                assert(oi != oj);
            }
            assert forall|r: (int, int)|
                next.grid.in_bounds(r) && !visited(r, p.1, p.0 + 1) implies next.origin[#[trigger] next.grid.index_of(
                    r,
                )] == next.grid.index_of(r) by {
                assert(!visited(r, p.1, p.0));
                assert(visited(q, p.1, p.0 + 1));
                grid.lemma_index_in_range(r);
                if grid.index_of(r) == a {
                    grid.lemma_index_injective(r, p);
                }
                if grid.index_of(r) == b {
                    grid.lemma_index_injective(r, q);
                }
                assert(next.origin[grid.index_of(r)] == pass.origin[grid.index_of(r)]);
                assert(pass.origin[grid.index_of(r)] == grid.index_of(r));
            }
            assert forall|r: (int, int)|
                next.grid.in_bounds(r) && visited(r, p.1, p.0 + 1) && !(#[trigger] next.grid.at(
                    r,
                )).is_empty() implies next.grid.one_step_above(
                next.origin[next.grid.index_of(r)],
                r,
            ) by {
                grid.lemma_index_in_range(r);
                if r == p {
                    assert(next.grid.at(r) == grid.at(q));
                } else if r == q {
                    assert(next.origin[b] == a);
                    assert(next.grid.one_step_above(a, q));
                } else {
                    if grid.index_of(r) == a {
                        grid.lemma_index_injective(r, p);
                    }
                    if grid.index_of(r) == b {
                        grid.lemma_index_injective(r, q);
                    }
                    assert(next.grid.at(r) == grid.at(r));
                    assert(visited(r, p.1, p.0));
                    assert(next.origin[grid.index_of(r)] == pass.origin[grid.index_of(r)]);
                    assert(grid.one_step_above(pass.origin[grid.index_of(r)], r));
                }
            }
        },
    }
}

/// The visits of a row keep the trace.
proof fn lemma_scan_row_traced(start: GridView, pass: Pass, y: int, n: nat, draws: Seq<bool>)
    requires
        traced(start, pass, y, 0),
        0 <= y < pass.grid.height,
        n <= pass.grid.width,
    ensures
        traced(start, pass.scan_row(y, n, draws), y, n as int),
    decreases n,
{
    if n > 0 {
        lemma_scan_row_traced(start, pass, y, (n - 1) as nat, draws);
        lemma_visit_traced(start, pass.scan_row(y, (n - 1) as nat, draws), (n - 1, y), draws);
    }
}

/// The visits of the lowest rows keep the trace.
proof fn lemma_scan_rows_traced(start: GridView, m: nat, draws: Seq<bool>)
    requires
        start.wf(),
        m <= start.height,
    ensures
        traced(start, Pass::start(start).scan_rows(m, draws), start.height - m - 1, 0),
    decreases m,
{
    let first = Pass::start(start);
    if m == 0 {
        assert forall|p: (int, int)|
            first.grid.in_bounds(p) && !visited(p, start.height - 1, 0) implies first.origin[#[trigger] first.grid.index_of(
                p,
            )] == first.grid.index_of(p) by {
            start.lemma_index_in_range(p);
        }
    } else {
        let below = first.scan_rows((m - 1) as nat, draws);
        lemma_scan_rows_traced(start, (m - 1) as nat, draws);
        lemma_scan_row_traced(start, below, start.height - m, start.width as nat, draws);
        let done = below.scan_row(start.height - m, start.width as nat, draws);
        assert forall|p: (int, int)| done.grid.in_bounds(p) implies (visited(
            p,
            start.height - m,
            start.width,
        ) <==> visited(p, start.height - m - 1, 0)) by {}
    }
}

/// Within one tick no particle moves more than once. The cells after the
/// tick are the cells before it, each taken from a place of its own, and
/// every cell that holds a particle or other matter after the tick took it
/// from the same place or from one step above: straight, to the left or to
/// the right.
pub proof fn lemma_no_overtake(grid: GridView, draws: Seq<bool>)
    requires
        grid.wf(),
    ensures
        ({
            let end = tick_pass(grid, draws);
            let len = grid.cells.len();
            &&& end.grid == tick(grid, draws)
            &&& end.grid.cells.len() == len
            &&& end.origin.len() == len
            &&& forall|i: int|
                0 <= i < len ==> 0 <= #[trigger] end.origin[i] < len && end.grid.cells[i]
                    == grid.cells[end.origin[i]]
            &&& forall|i: int, j: int|
                0 <= i < len && 0 <= j < len && i != j ==> #[trigger] end.origin[i]
                    != #[trigger] end.origin[j]
            &&& forall|p: (int, int)|
                grid.in_bounds(p) && !(#[trigger] end.grid.at(p)).is_empty()
                    ==> grid.one_step_above(end.origin[grid.index_of(p)], p)
        }),
{
    lemma_scan_rows_traced(grid, grid.height as nat, draws);
    let end = tick_pass(grid, draws);
    assert forall|p: (int, int)|
        grid.in_bounds(p) && !(#[trigger] end.grid.at(p)).is_empty() implies grid.one_step_above(
        end.origin[grid.index_of(p)],
        p,
    ) by {
        assert(end.grid.in_bounds(p));
        assert(visited(p, -1, 0));
        assert(end.grid.one_step_above(end.origin[end.grid.index_of(p)], p));
    }
}

} // verus!
