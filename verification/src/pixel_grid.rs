//! The update pass: one tick of the whole grid.

use crate::grid::{Grid, GridPosition};
use crate::particle::{Particle, ParticleType};
use crate::pass::{
    coin, lemma_scan_row_agrees, lemma_scan_row_keeps, lemma_scan_rows_agrees,
    lemma_scan_rows_keeps, lemma_used_grows_in_row, tick, Pass,
};
use rand::rngs::StdRng;
use vstd::prelude::*;

verus! {

impl Grid {
    /// Advances the grid by one tick. The rows are visited from the bottom
    /// one upwards and each row from left to right, so that a particle that
    /// has moved down is not met again. Each particle that cannot fall
    /// draws from `rng` the order in which it tries its two diagonals.
    pub fn update(&mut self, rng: &mut StdRng)
        requires
            old(self).wf(),
        ensures
            final(self).wf(),
            exists|draws: Seq<bool>| final(self)@ == #[trigger] tick(old(self)@, draws),
            final(self)@.width == old(self)@.width,
            final(self)@.height == old(self)@.height,
            final(self)@.cell_size == old(self)@.cell_size,
            final(self)@.contents() == old(self)@.contents(),
            final(self)@.particles() == old(self)@.particles(),
    {
        let size = self.grid_size();
        let ghost start = self@;
        let ghost mut draws: Seq<bool> = Seq::empty();
        proof {
            self.lemma_view_wf();
        }
        let mut y: i32 = size.1;
        while y > 0
            invariant
                self.wf(),
                start.wf(),
                size.0 == start.width,
                size.1 == start.height,
                0 <= y <= size.1,
                self@ == Pass::start(start).scan_rows((size.1 - y) as nat, draws).grid,
                draws.len() == Pass::start(start).scan_rows((size.1 - y) as nat, draws).used,
            decreases y,
        {
            y = y - 1;
            let ghost below = Pass::start(start).scan_rows((size.1 - y - 1) as nat, draws);
            let mut x: i32 = 0;
            while x < size.0
                invariant
                    self.wf(),
                    start.wf(),
                    size.0 == start.width,
                    size.1 == start.height,
                    0 <= y < size.1,
                    0 <= x <= size.0,
                    self@ == Pass::start(start).scan_rows((size.1 - y - 1) as nat, draws).scan_row(
                        y as int,
                        x as nat,
                        draws,
                    ).grid,
                    draws.len() == Pass::start(start).scan_rows(
                        (size.1 - y - 1) as nat,
                        draws,
                    ).scan_row(y as int, x as nat, draws).used,
                decreases size.0 - x,
            {
                let ghost rows = Pass::start(start).scan_rows((size.1 - y - 1) as nat, draws);
                let ghost here = rows.scan_row(y as int, x as nat, draws);
                let ghost p = (x as int, y as int);
                proof {
                    lemma_scan_rows_keeps(Pass::start(start), (size.1 - y - 1) as nat, draws);
                    lemma_scan_row_keeps(rows, y as int, x as nat, draws);
                    self.lemma_view_wf();
                }
                let pos = GridPosition::new(x, y);
                match self.cell_at(pos) {
                    Ok(cell) => {
                        match ParticleType::of_material(cell.material_type) {
                            Some(type_) => {
                                let mut particle = Particle::new(pos, type_);
                                particle.update(self, rng);
                                proof {
                                    let left_first = choose|left_first: bool|
                                        self@ == here.grid.moved(
                                            p,
                                            #[trigger] here.grid.settle_direction(p, left_first),
                                        );
                                    if here.takes_coin(p) {
                                        let longer = draws.push(left_first);
                                        assert forall|k: nat| k < here.used implies coin(draws, k)
                                            == coin(longer, k) by {}
                                        lemma_used_grows_in_row(rows, y as int, x as nat, draws);
                                        lemma_scan_rows_agrees(
                                            Pass::start(start),
                                            (size.1 - y - 1) as nat,
                                            draws,
                                            longer,
                                        );
                                        lemma_scan_row_agrees(
                                            rows,
                                            y as int,
                                            x as nat,
                                            draws,
                                            longer,
                                        );
                                        assert(coin(longer, here.used) == left_first);
                                        draws = longer;
                                    }
                                }
                            },
                            None => {},
                        }
                    },
                    Err(_) => {},
                }
                proof {
                    assert(rows.scan_row(y as int, (x + 1) as nat, draws) == rows.scan_row(
                        y as int,
                        x as nat,
                        draws,
                    ).visit(p, draws));
                }
                x = x + 1;
            }
            proof {
                assert(Pass::start(start).scan_rows((size.1 - y) as nat, draws)
                    == Pass::start(start).scan_rows((size.1 - y - 1) as nat, draws).scan_row(
                    y as int,
                    size.0 as nat,
                    draws,
                ));
            }
        }
        proof {
            lemma_scan_rows_keeps(Pass::start(start), size.1 as nat, draws);
            assert(self@ == tick(start, draws));
        }
    }
}

} // verus!
