//! One particle and the rule by which it moves.

use crate::chance::shuffled_pair;
use crate::grid::{stepped, Direction, Grid, GridPosition};
use crate::model::{first_diagonal, second_diagonal, GridView};
use crate::pixel::{Colour, MaterialType};
use rand::rngs::StdRng;
use vstd::prelude::*;

verus! {

/// The materials that move.
#[derive(Clone, Copy, Debug, PartialEq, Eq, Structural)]
pub enum ParticleType {
    Water,
    Sand,
}

impl ParticleType {
    /// The material that a particle of this type is made of.
    pub open spec fn material_of(self) -> MaterialType {
        match self {
            ParticleType::Water => MaterialType::Water,
            ParticleType::Sand => MaterialType::Sand,
        }
    }

    /// The particle type of a material, if it moves at all.
    pub open spec fn of(material: MaterialType) -> Option<ParticleType> {
        match material {
            MaterialType::Water => Some(ParticleType::Water),
            MaterialType::Sand => Some(ParticleType::Sand),
            _ => None,
        }
    }

    /// The material that a particle of this type is made of.
    pub fn material(&self) -> (m: MaterialType)
        ensures
            m == self.material_of(),
            m.is_mobile(),
    {
        match self {
            ParticleType::Water => MaterialType::Water,
            ParticleType::Sand => MaterialType::Sand,
        }
    }

    /// The particle type of a material: `None` for one that does not move.
    pub fn of_material(material: MaterialType) -> (t: Option<ParticleType>)
        ensures
            t == Self::of(material),
            t is Some <==> material.is_mobile(),
    {
        match material {
            MaterialType::Water => Some(ParticleType::Water),
            MaterialType::Sand => Some(ParticleType::Sand),
            _ => None,
        }
    }

    /// The colour in which a particle of this type is shown.
    pub fn as_colour(&self) -> (c: Colour)
        ensures
            c == self.material_of().colour(),
    {
        self.material().as_colour()
    }
}

/// What a particle is: where it stands, what it is made of, how it last
/// moved, and whether it may spread sideways.
pub struct ParticleView {
    pub pos: (int, int),
    pub type_: ParticleType,
    pub last_move: Option<Direction>,
    pub lateral_spread: bool,
}

/// The side that a spreading particle tries: the one it last moved to if it
/// last moved sideways, else the one that the coin gives.
pub open spec fn spread_direction(last_move: Option<Direction>, go_left: bool) -> Direction {
    match last_move {
        Some(Direction::Left) => Direction::Left,
        Some(Direction::Right) => Direction::Right,
        _ => if go_left {
            Direction::Left
        } else {
            Direction::Right
        },
    }
}

impl ParticleView {
    /// Whether this particle spreads sideways when it cannot settle.
    pub open spec fn spreads(self) -> bool {
        self.lateral_spread && self.type_.material_of().is_fluid()
    }

    /// The step this particle takes on `grid`: down, else a diagonal in the
    /// order of the first coin, else, if it spreads, the side that
    /// `spread_direction` names. `None` if it stays.
    pub open spec fn step(self, grid: GridView, left_first: bool, go_left: bool) -> Option<
        Direction,
    > {
        match grid.settle_direction(self.pos, left_first) {
            Some(dir) => Some(dir),
            None => if self.spreads() && grid.can_move(
                spread_direction(self.last_move, go_left),
                self.pos,
            ) {
                Some(spread_direction(self.last_move, go_left))
            } else {
                None
            },
        }
    }

    /// This particle after it has taken `step`.
    pub open spec fn after(self, step: Option<Direction>) -> ParticleView {
        match step {
            Some(dir) => ParticleView { pos: stepped(self.pos, dir), last_move: Some(dir), ..self },
            None => self,
        }
    }
}

/// A particle that the caller follows from tick to tick.
#[derive(Clone, Copy, Debug, PartialEq, Eq)]
pub struct Particle {
    pos: GridPosition,
    type_: ParticleType,
    last_move: Option<Direction>,
    lateral_spread: bool,
}

impl View for Particle {
    type V = ParticleView;

    closed spec fn view(&self) -> ParticleView {
        ParticleView {
            pos: self.pos@,
            type_: self.type_,
            last_move: self.last_move,
            lateral_spread: self.lateral_spread,
        }
    }
}

impl Particle {
    /// A particle that has not moved yet and does not spread sideways.
    pub fn new(pos: GridPosition, type_: ParticleType) -> (particle: Self)
        ensures
            particle@ == (ParticleView {
                pos: pos@,
                type_,
                last_move: None::<Direction>,
                lateral_spread: false,
            }),
    {
        Self { pos, type_, last_move: None, lateral_spread: false }
    }

    /// This particle with sideways spreading switched on or off.
    pub fn with_lateral_spread(self, enabled: bool) -> (particle: Self)
        ensures
            particle@ == (ParticleView { lateral_spread: enabled, ..self@ }),
    {
        Self { lateral_spread: enabled, ..self }
    }

    /// Where the particle stands.
    pub fn pos(&self) -> (pos: GridPosition)
        ensures
            pos@ == self@.pos,
    {
        self.pos
    }

    /// What the particle is made of.
    pub fn particle_type(&self) -> (type_: ParticleType)
        ensures
            type_ == self@.type_,
    {
        self.type_
    }

    /// The last step the particle took, if it has taken any.
    pub fn last_move(&self) -> (last_move: Option<Direction>)
        ensures
            last_move == self@.last_move,
    {
        self.last_move
    }

    /// Takes one step that the grid allows. The cell it leads to is on the
    /// grid, so the particle changes places with it: none ever leaves.
    fn move_(&mut self, grid: &mut Grid, dir: Direction)
        requires
            old(grid).wf(),
            old(grid)@.in_bounds(old(self)@.pos),
            old(grid)@.can_move(dir, old(self)@.pos),
        ensures
            final(grid).wf(),
            final(grid)@ == old(grid)@.moved(old(self)@.pos, Some(dir)),
            final(self)@ == old(self)@.after(Some(dir)),
    {
        proof {
            grid.lemma_view_wf();
        }
        let from = self.pos;
        self.pos.move_in_direction(dir);
        grid.swap(from, self.pos);
        self.last_move = Some(dir);
    }

    /// Gravity: one step straight down, if the grid allows it.
    fn fall(&mut self, grid: &mut Grid) -> (moved: bool)
        requires
            old(grid).wf(),
            old(grid)@.in_bounds(old(self)@.pos),
        ensures
            final(grid).wf(),
            moved == old(grid)@.can_move(Direction::Down, old(self)@.pos),
            moved ==> final(grid)@ == old(grid)@.moved(old(self)@.pos, Some(Direction::Down))
                && final(self)@ == old(self)@.after(Some(Direction::Down)),
            !moved ==> final(grid)@ == old(grid)@ && final(self)@ == old(self)@,
    {
        if grid.can_move(Direction::Down, self.pos, self.type_.material()) {
            self.move_(grid, Direction::Down);
            true
        } else {
            false
        }
    }

    /// Settling: one step to the first of the two diagonals that the grid
    /// allows, tried in the order given.
    fn settle(&mut self, grid: &mut Grid, left_first: bool) -> (moved: bool)
        requires
            old(grid).wf(),
            old(grid)@.in_bounds(old(self)@.pos),
            !old(grid)@.can_move(Direction::Down, old(self)@.pos),
        ensures
            final(grid).wf(),
            moved == old(grid)@.settle_direction(old(self)@.pos, left_first).is_some(),
            final(grid)@ == old(grid)@.moved(
                old(self)@.pos,
                old(grid)@.settle_direction(old(self)@.pos, left_first),
            ),
            final(self)@ == old(self)@.after(
                old(grid)@.settle_direction(old(self)@.pos, left_first),
            ),
    {
        let (first, second) = if left_first {
            (Direction::DownLeft, Direction::DownRight)
        } else {
            (Direction::DownRight, Direction::DownLeft)
        };
        if grid.can_move(first, self.pos, self.type_.material()) {
            self.move_(grid, first);
            true
        } else if grid.can_move(second, self.pos, self.type_.material()) {
            self.move_(grid, second);
            true
        } else {
            false
        }
    }

    /// Spreading: one step to the side given, if the grid allows it.
    fn spread(&mut self, grid: &mut Grid, side: Direction) -> (moved: bool)
        requires
            old(grid).wf(),
            old(grid)@.in_bounds(old(self)@.pos),
        ensures
            final(grid).wf(),
            moved == old(grid)@.can_move(side, old(self)@.pos),
            moved ==> final(grid)@ == old(grid)@.moved(old(self)@.pos, Some(side)) && final(self)@ == old(self)@.after(Some(side)),
            !moved ==> final(grid)@ == old(grid)@ && final(self)@ == old(self)@,
    {
        if grid.can_move(side, self.pos, self.type_.material()) {
            self.move_(grid, side);
            true
        } else {
            false
        }
    }

    /// Whether this particle spreads sideways when it cannot settle.
    fn spreads(&self) -> (spreads: bool)
        ensures
            spreads == self@.spreads(),
    {
        self.lateral_spread && self.type_.material().fluid()
    }

    /// Moves this particle by the rule, with both coins given: `left_first`
    /// orders the diagonals, `go_left` picks the side for a particle that
    /// spreads and did not last move sideways.
    pub fn update_with(&mut self, grid: &mut Grid, left_first: bool, go_left: bool)
        requires
            old(grid).wf(),
            old(grid)@.in_bounds(old(self)@.pos),
        ensures
            final(grid).wf(),
            final(grid)@ == old(grid)@.moved(
                old(self)@.pos,
                old(self)@.step(old(grid)@, left_first, go_left),
            ),
            final(self)@ == old(self)@.after(old(self)@.step(old(grid)@, left_first, go_left)),
    {
        if self.fall(grid) {
            return ;
        }
        if self.settle(grid, left_first) {
            return ;
        }
        if self.spreads() {
            let side = match self.last_move {
                Some(Direction::Left) => Direction::Left,
                Some(Direction::Right) => Direction::Right,
                _ => if go_left {
                    Direction::Left
                } else {
                    Direction::Right
                },
            };
            self.spread(grid, side);
        }
    }

    /// Moves this particle by the rule, with the coins drawn from `rng` as
    /// they are needed: none if the particle falls, one to order the
    /// diagonals if it does not, and one more if it then spreads without a
    /// sideways move to continue.
    pub fn update(&mut self, grid: &mut Grid, rng: &mut StdRng)
        requires
            old(grid).wf(),
            old(grid)@.in_bounds(old(self)@.pos),
        ensures
            final(grid).wf(),
            exists|left_first: bool, go_left: bool|
                {
                    &&& final(grid)@ == old(grid)@.moved(
                        old(self)@.pos,
                        #[trigger] old(self)@.step(old(grid)@, left_first, go_left),
                    )
                    &&& final(self)@ == old(self)@.after(
                        old(self)@.step(old(grid)@, left_first, go_left),
                    )
                },
            old(grid)@.can_move(Direction::Down, old(self)@.pos) ==> final(grid)@ == old(grid)@.swapped(old(self)@.pos, stepped(old(self)@.pos, Direction::Down)) && final(self)@
                == old(self)@.after(Some(Direction::Down)),
            !old(grid)@.can_move(Direction::Down, old(self)@.pos) && !old(grid)@.can_move(
                Direction::DownLeft,
                old(self)@.pos,
            ) && !old(grid)@.can_move(Direction::DownRight, old(self)@.pos) && !old(self)@.spreads() ==> final(grid)@ == old(grid)@ && final(self)@ == old(self)@,
    {
        let ghost before = grid@;
        let ghost was = self@;
        if self.fall(grid) {
            assert(was.step(before, true, true) == Some(Direction::Down));
            return ;
        }
        let diagonals = shuffled_pair(Direction::DownLeft, Direction::DownRight, rng);
        let left_first = match diagonals[0] {
            Direction::DownLeft => true,
            _ => false,
        };
        if self.settle(grid, left_first) {
            assert(was.step(before, left_first, true) == before.settle_direction(
                was.pos,
                left_first,
            ));
            return ;
        }
        if self.spreads() {
            let side = match self.last_move {
                Some(Direction::Left) => Direction::Left,
                Some(Direction::Right) => Direction::Right,
                _ => {
                    let sides = shuffled_pair(Direction::Left, Direction::Right, rng);
                    sides[0]
                },
            };
            let ghost go_left = side == Direction::Left;
            assert(side == spread_direction(was.last_move, go_left));
            self.spread(grid, side);
            assert(grid@ == before.moved(was.pos, was.step(before, left_first, go_left)));
        } else {
            assert(was.step(before, left_first, true) == None::<Direction>);
        }
    }
}

} // verus!
