//! Grid space and world space, the unit steps between cells, and the grid
//! that owns the cells.

use crate::model::GridView;
use crate::pixel::{MaterialType, Pixel, UnpackedPixel};
use crate::storage::{array_filled_with, array_get, array_rows, array_set};
use array2d::Array2D;
use vstd::arithmetic::div_mod::{
    lemma_div_pos_is_pos, lemma_fundamental_div_mod, lemma_fundamental_div_mod_converse,
    lemma_mod_pos_bound, lemma_multiply_divide_lt,
};
use vstd::prelude::*;

verus! {

/// A unit step. `y` grows downwards.
#[derive(Clone, Copy, Debug, PartialEq, Eq, Structural)]
pub enum Direction {
    Up,
    Down,
    Left,
    Right,
    DownLeft,
    DownRight,
}

impl Direction {
    /// The step as `(dx, dy)`.
    pub open spec fn delta(self) -> (int, int) {
        match self {
            Direction::Up => (0, -1),
            Direction::Down => (0, 1),
            Direction::Left => (-1, 0),
            Direction::Right => (1, 0),
            Direction::DownLeft => (-1, 1),
            Direction::DownRight => (1, 1),
        }
    }

    /// The step along `x`.
    pub fn dx(&self) -> (d: i32)
        ensures
            d == self.delta().0,
    {
        match self {
            Direction::Left | Direction::DownLeft => -1,
            Direction::Right | Direction::DownRight => 1,
            _ => 0,
        }
    }

    /// The step along `y`.
    pub fn dy(&self) -> (d: i32)
        ensures
            d == self.delta().1,
    {
        match self {
            Direction::Up => -1,
            Direction::Left | Direction::Right => 0,
            _ => 1,
        }
    }
}

/// A cell coordinate.
#[derive(Clone, Copy, Debug, PartialEq, Eq, Structural)]
pub struct GridPosition {
    pub x: i32,
    pub y: i32,
}

impl View for GridPosition {
    type V = (int, int);

    open spec fn view(&self) -> (int, int) {
        (self.x as int, self.y as int)
    }
}

/// `p` moved by one step in `dir`.
pub open spec fn stepped(p: (int, int), dir: Direction) -> (int, int) {
    (p.0 + dir.delta().0, p.1 + dir.delta().1)
}

/// Whether both coordinates of `p` fit in an `i32`.
pub open spec fn representable(p: (int, int)) -> bool {
    i32::MIN <= p.0 <= i32::MAX && i32::MIN <= p.1 <= i32::MAX
}

impl GridPosition {
    pub fn new(x: i32, y: i32) -> (p: Self)
        ensures
            p@ == (x as int, y as int),
    {
        Self { x, y }
    }

    /// Moves this position by one step in `dir`.
    pub fn move_in_direction(&mut self, dir: Direction)
        requires
            representable(stepped(old(self)@, dir)),
        ensures
            final(self)@ == stepped(old(self)@, dir),
    {
        match dir {
            Direction::Up => self.y -= 1,
            Direction::Down => self.y += 1,
            Direction::Left => self.x -= 1,
            Direction::Right => self.x += 1,
            Direction::DownLeft => {
                self.x -= 1;
                self.y += 1;
            },
            Direction::DownRight => {
                self.x += 1;
                self.y += 1;
            },
        }
    }

    /// This position moved by one step in `dir`. It stays as it is.
    pub fn new_in_direction(&self, dir: Direction) -> (p: Self)
        requires
            representable(stepped(self@, dir)),
        ensures
            p@ == stepped(self@, dir),
    {
        let mut new = *self;
        new.move_in_direction(dir);
        new
    }

    /// The coordinates as indices, `x` first.
    pub fn into_grid_coord(&self) -> (coord: (usize, usize))
        requires
            self@.0 >= 0,
            self@.1 >= 0,
        ensures
            coord.0 == self@.0,
            coord.1 == self@.1,
    {
        (self.x as usize, self.y as usize)
    }
}

impl From<(i32, i32)> for GridPosition {
    fn from(pair: (i32, i32)) -> (p: Self) {
        GridPosition::new(pair.0, pair.1)
    }
}

impl vstd::std_specs::convert::FromSpecImpl<(i32, i32)> for GridPosition {
    open spec fn obeys_from_spec() -> bool {
        true
    }

    open spec fn from_spec(pair: (i32, i32)) -> Self {
        GridPosition { x: pair.0, y: pair.1 }
    }
}

/// A pixel coordinate.
#[derive(Clone, Copy, Debug, PartialEq, Eq, Structural)]
pub struct WorldPosition {
    pub x: i32,
    pub y: i32,
}

impl View for WorldPosition {
    type V = (int, int);

    open spec fn view(&self) -> (int, int) {
        (self.x as int, self.y as int)
    }
}

impl From<(i32, i32)> for WorldPosition {
    fn from(pair: (i32, i32)) -> (p: Self) {
        WorldPosition::new(pair.0, pair.1)
    }
}

impl vstd::std_specs::convert::FromSpecImpl<(i32, i32)> for WorldPosition {
    open spec fn obeys_from_spec() -> bool {
        true
    }

    open spec fn from_spec(pair: (i32, i32)) -> Self {
        WorldPosition { x: pair.0, y: pair.1 }
    }
}

/// `a / b` rounded towards zero. (In specifications `/` leaves a remainder
/// that is not negative, which for `a >= 0` is rounding towards zero.)
pub open spec fn truncated_quotient(a: int, b: int) -> int
    recommends
        b != 0,
{
    if a >= 0 {
        a / b
    } else {
        -((-a) / b)
    }
}

impl WorldPosition {
    pub fn new(x: i32, y: i32) -> (p: Self)
        ensures
            p@ == (x as int, y as int),
    {
        Self { x, y }
    }
}

/// Why the grid turned a request down.
#[derive(Clone, Copy, Debug, PartialEq, Eq, Structural)]
pub enum GridError {
    /// The coordinate is not a cell of the grid.
    InvalidCoordinate,
    /// The cell already holds a material.
    OccupiedDestination,
}

/// A dense grid of packed cells whose size is fixed when it is made.
#[derive(Debug, PartialEq, Eq)]
pub struct Grid {
    cell_size: (i32, i32),
    grid_size: (i32, i32),
    grid: Array2D<u64>,
}

impl View for Grid {
    type V = GridView;

    closed spec fn view(&self) -> GridView {
        let w = self.grid_size.0 as int;
        let h = self.grid_size.1 as int;
        GridView {
            cell_size: (self.cell_size.0 as int, self.cell_size.1 as int),
            width: w,
            height: h,
            cells: Seq::new((w * h) as nat, |i: int| Pixel(array_rows(self.grid)[i / w][i % w])),
        }
    }
}

/// A place in a row-major sequence of rows `w` long, as row and column.
proof fn lemma_split(i: int, w: int, h: int)
    requires
        0 <= i < w * h,
        0 <= w,
    ensures
        0 < w,
        0 <= i / w < h,
        0 <= i % w < w,
        i == (i / w) * w + i % w,
{
    assert(0 < w) by (nonlinear_arith)
        requires
            0 < w * h,
            0 <= w,
    ;
    lemma_div_pos_is_pos(i, w);
    lemma_multiply_divide_lt(i, w, h);
    lemma_mod_pos_bound(i, w);
    lemma_fundamental_div_mod(i, w);
    assert(w * (i / w) == (i / w) * w) by (nonlinear_arith);
}

impl Grid {
    /// The store has the shape that the size promises, and every word in it
    /// is a cell with a known material.
    pub closed spec fn wf(&self) -> bool {
        let w = self.grid_size.0 as int;
        let h = self.grid_size.1 as int;
        let rows = array_rows(self.grid);
        &&& 0 <= w
        &&& 0 <= h
        &&& rows.len() == h
        &&& forall|y: int| 0 <= y < h ==> (#[trigger] rows[y]).len() == w
        &&& forall|y: int, x: int|
            0 <= y < h && 0 <= x < w ==> Pixel(#[trigger] rows[y][x]).is_valid()
    }

    /// Whether a grid of this size can be stored: neither dimension is
    /// negative and the cells, eight bytes each, fit in one allocation.
    pub open spec fn fits(grid_size: (i32, i32)) -> bool {
        &&& grid_size.0 >= 0
        &&& grid_size.1 >= 0
        &&& grid_size.0 * grid_size.1 * 8 <= isize::MAX
    }

    /// A well-formed grid is a well-formed value.
    pub proof fn lemma_view_wf(&self)
        requires
            self.wf(),
        ensures
            self@.wf(),
    {
        let w = self.grid_size.0 as int;
        let h = self.grid_size.1 as int;
        assert(0 <= w * h) by (nonlinear_arith)
            requires
                0 <= w,
                0 <= h,
        ;
        assert forall|i: int| 0 <= i < self@.cells.len() implies (#[trigger] self@.cells[i]).is_valid() by {
            lemma_split(i, w, h);
            assert(Pixel(array_rows(self.grid)[i / w][i % w]).is_valid());
        }
    }

    /// The cell at `(x, y)` is the word in row `y`, column `x` of the store.
    proof fn lemma_cell(&self, x: int, y: int)
        requires
            self.wf(),
            self@.in_bounds((x, y)),
        ensures
            0 <= self@.index_of((x, y)) < self@.cells.len(),
            self@.at((x, y)) == Pixel(array_rows(self.grid)[y][x]),
            self@.at((x, y)).is_valid(),
    {
        let w = self.grid_size.0 as int;
        self.lemma_view_wf();
        self@.lemma_index_in_range((x, y));
        lemma_fundamental_div_mod_converse(y * w + x, w, y, x);
    }

    /// A grid of `grid_size.0` by `grid_size.1` blank cells.
    pub fn new(cell_size: (i32, i32), grid_size: (i32, i32)) -> (grid: Self)
        requires
            Self::fits(grid_size),
        ensures
            grid.wf(),
            grid@ == GridView::blank(
                (cell_size.0 as int, cell_size.1 as int),
                grid_size.0 as int,
                grid_size.1 as int,
            ),
    {
        let grid = array_filled_with(Pixel::blank().0, grid_size.1 as usize, grid_size.0 as usize);
        let made = Self { cell_size, grid_size, grid };
        proof {
            let w = grid_size.0 as int;
            let h = grid_size.1 as int;
            assert forall|i: int| 0 <= i < w * h implies #[trigger] made@.cells[i] == Pixel(0) by {
                lemma_split(i, w, h);
            }
            assert(made@.cells =~= GridView::blank(
                (cell_size.0 as int, cell_size.1 as int),
                w,
                h,
            ).cells);
        }
        made
    }

    /// Pixels per cell along `x` and along `y`.
    pub fn cell_size(&self) -> (size: (i32, i32))
        ensures
            (size.0 as int, size.1 as int) == self@.cell_size,
    {
        self.cell_size
    }

    /// Cells per row, and the number of rows.
    pub fn grid_size(&self) -> (size: (i32, i32))
        ensures
            size.0 == self@.width,
            size.1 == self@.height,
    {
        self.grid_size
    }

    /// Whether `pos` is a cell of this grid.
    pub fn in_bounds(&self, pos: GridPosition) -> (inside: bool)
        ensures
            inside == self@.in_bounds(pos@),
    {
        pos.x >= 0 && pos.x < self.grid_size.0 && pos.y >= 0 && pos.y < self.grid_size.1
    }

    /// The cell at `pos`. The store counts rows first, so `y` goes before
    /// `x`.
    fn read(&self, pos: GridPosition) -> (pixel: Pixel)
        requires
            self.wf(),
            self@.in_bounds(pos@),
        ensures
            pixel == self@.at(pos@),
            pixel.is_valid(),
    {
        proof {
            self.lemma_cell(pos@.0, pos@.1);
        }
        let (column, row) = pos.into_grid_coord();
        Pixel(array_get(&self.grid, row, column))
    }

    /// Overwrites the cell at `pos`.
    fn write(&mut self, pos: GridPosition, pixel: Pixel)
        requires
            old(self).wf(),
            old(self)@.in_bounds(pos@),
            pixel.is_valid(),
        ensures
            final(self).wf(),
            final(self)@ == old(self)@.with_cell(pos@, pixel),
    {
        proof {
            self.lemma_cell(pos@.0, pos@.1);
        }
        let (column, row) = pos.into_grid_coord();
        array_set(&mut self.grid, row, column, pixel.0);
        proof {
            let x = pos@.0;
            let y = pos@.1;
            let w = self.grid_size.0 as int;
            let h = self.grid_size.1 as int;
            let before = array_rows(old(self).grid);
            let after = array_rows(self.grid);
            let target = old(self)@.with_cell(pos@, pixel);
            assert forall|r: int, c: int| 0 <= r < h && 0 <= c < w implies Pixel(
                #[trigger] after[r][c],
            ).is_valid() by {
                if r == y && c == x {
                } else {
                    assert(after[r][c] == before[r][c]);
                }
            }
            assert forall|i: int| 0 <= i < w * h implies Pixel(after[i / w][i % w])
                == #[trigger] target.cells[i] by {
                lemma_split(i, w, h);
                if i == y * w + x {
                    lemma_fundamental_div_mod_converse(i, w, y, x);
                } else {
                    assert(!(i / w == y && i % w == x));
                    assert(after[i / w][i % w] == before[i / w][i % w]);
                }
            }
            assert(self@.cells =~= target.cells);
        }
    }

    /// Whether the particle at `pos` may step in `direction`. In this
    /// rule the stepping material plays no part: any occupied cell blocks.
    pub fn can_move(&self, direction: Direction, pos: GridPosition, moving_material: MaterialType) -> (allowed: bool)
        requires
            self.wf(),
        ensures
            allowed == self@.can_move(direction, pos@),
    {
        let x: i64 = pos.x as i64 + direction.dx() as i64;
        let y: i64 = pos.y as i64 + direction.dy() as i64;
        let in_x_bounds = x >= 0 && x < self.grid_size.0 as i64;
        let in_y_bounds = y >= 0 && y < self.grid_size.1 as i64;
        if in_x_bounds && in_y_bounds {
            self.read(GridPosition::new(x as i32, y as i32)).material_type_raw() == 0
        } else {
            false
        }
    }

    /// Exchanges two cells, whatever they hold. Whether the move is legal
    /// is for the caller to have settled.
    pub(crate) fn swap(&mut self, a: GridPosition, b: GridPosition)
        requires
            old(self).wf(),
            old(self)@.in_bounds(a@),
            old(self)@.in_bounds(b@),
        ensures
            final(self).wf(),
            final(self)@ == old(self)@.swapped(a@, b@),
    {
        let at_a = self.read(a);
        let at_b = self.read(b);
        self.write(a, at_b);
        self.write(b, at_a);
    }

    /// Resets the cell at `pos` to blank.
    pub fn clear(&mut self, pos: GridPosition) -> (result: Result<(), GridError>)
        requires
            old(self).wf(),
        ensures
            final(self).wf(),
            old(self)@.in_bounds(pos@) ==> result == Ok::<(), GridError>(()) && final(self)@
                == old(self)@.with_cell(pos@, Pixel(0)),
            !old(self)@.in_bounds(pos@) ==> result == Err::<(), GridError>(
                GridError::InvalidCoordinate,
            ) && final(self)@ == old(self)@,
    {
        if !self.in_bounds(pos) {
            return Err(GridError::InvalidCoordinate);
        }
        self.write(pos, Pixel::blank());
        Ok(())
    }

    /// Puts a material into an empty cell.
    pub fn place(&mut self, pos: GridPosition, material_type: MaterialType, fill_level: u8) -> (result: Result<(), GridError>)
        requires
            old(self).wf(),
        ensures
            final(self).wf(),
            !old(self)@.in_bounds(pos@) ==> result == Err::<(), GridError>(
                GridError::InvalidCoordinate,
            ),
            old(self)@.in_bounds(pos@) && !old(self)@.at(pos@).is_empty() ==> result == Err::<
                (),
                GridError,
            >(GridError::OccupiedDestination),
            old(self)@.is_free(pos@) ==> result == Ok::<(), GridError>(()),
            result is Ok ==> final(self)@ == old(self)@.with_cell(
                pos@,
                Pixel(Pixel::word_of(UnpackedPixel { material_type, fill_level })),
            ),
            result is Err ==> final(self)@ == old(self)@,
    {
        if !self.in_bounds(pos) {
            return Err(GridError::InvalidCoordinate);
        }
        if self.read(pos).material_type_raw() != 0 {
            return Err(GridError::OccupiedDestination);
        }
        self.write(pos, Pixel::pack(UnpackedPixel { material_type, fill_level }));
        Ok(())
    }

    /// The material and the fill level of the cell at `pos`.
    pub fn cell_at(&self, pos: GridPosition) -> (result: Result<UnpackedPixel, GridError>)
        requires
            self.wf(),
        ensures
            self@.in_bounds(pos@) ==> result == Ok::<UnpackedPixel, GridError>(
                self@.at(pos@).fields(),
            ),
            !self@.in_bounds(pos@) ==> result == Err::<UnpackedPixel, GridError>(
                GridError::InvalidCoordinate,
            ),
    {
        if !self.in_bounds(pos) {
            return Err(GridError::InvalidCoordinate);
        }
        Ok(self.read(pos).unpack())
    }
}

impl GridPosition {
    /// The corner of this cell in world space: each coordinate times the
    /// cell size along its axis.
    pub fn to_world(&self, grid: &Grid) -> (p: WorldPosition)
        requires
            representable((self@.0 * grid@.cell_size.0, self@.1 * grid@.cell_size.1)),
        ensures
            p@ == (self@.0 * grid@.cell_size.0, self@.1 * grid@.cell_size.1),
    {
        let size = grid.cell_size();
        WorldPosition::new(self.x * size.0, self.y * size.1)
    }

    /// Whether this position lies in the bottom row of `grid`.
    pub fn is_at_max_y(&self, grid: &Grid) -> (at_max: bool)
        ensures
            at_max == (self@.1 == grid@.height - 1),
    {
        let size = grid.grid_size();
        self.y as i64 == size.1 as i64 - 1
    }
}

impl WorldPosition {
    /// The cell that this point lies in: each coordinate divided by the
    /// cell size along its axis, rounded towards zero.
    pub fn to_grid(&self, grid: &Grid) -> (p: GridPosition)
        requires
            grid@.cell_size.0 != 0,
            grid@.cell_size.1 != 0,
            representable(
                (
                    truncated_quotient(self@.0, grid@.cell_size.0),
                    truncated_quotient(self@.1, grid@.cell_size.1),
                ),
            ),
        ensures
            p@ == (
                truncated_quotient(self@.0, grid@.cell_size.0),
                truncated_quotient(self@.1, grid@.cell_size.1),
            ),
    {
        let size = grid.cell_size();
        GridPosition::new(self.x / size.0, self.y / size.1)
    }
}

} // verus!
