use particles::grid::{Direction, Grid, GridPosition, WorldPosition};

#[test]
fn each_direction_is_a_unit_step() {
    let origin = GridPosition::new(5, 5);
    assert_eq!(origin.new_in_direction(Direction::Up), GridPosition::new(5, 4));
    assert_eq!(origin.new_in_direction(Direction::Down), GridPosition::new(5, 6));
    assert_eq!(origin.new_in_direction(Direction::Left), GridPosition::new(4, 5));
    assert_eq!(origin.new_in_direction(Direction::Right), GridPosition::new(6, 5));
    assert_eq!(origin.new_in_direction(Direction::DownLeft), GridPosition::new(4, 6));
    assert_eq!(origin.new_in_direction(Direction::DownRight), GridPosition::new(6, 6));
}

#[test]
fn direction_components() {
    assert_eq!((Direction::Up.dx(), Direction::Up.dy()), (0, -1));
    assert_eq!((Direction::Down.dx(), Direction::Down.dy()), (0, 1));
    assert_eq!((Direction::Left.dx(), Direction::Left.dy()), (-1, 0));
    assert_eq!((Direction::Right.dx(), Direction::Right.dy()), (1, 0));
    assert_eq!((Direction::DownLeft.dx(), Direction::DownLeft.dy()), (-1, 1));
    assert_eq!((Direction::DownRight.dx(), Direction::DownRight.dy()), (1, 1));
}

#[test]
fn move_in_direction_changes_the_position_in_place() {
    let mut pos = GridPosition::new(0, 0);
    pos.move_in_direction(Direction::Down);
    assert_eq!(pos, GridPosition::new(0, 1));
    pos.move_in_direction(Direction::DownRight);
    assert_eq!(pos, GridPosition::new(1, 2));
    pos.move_in_direction(Direction::Up);
    pos.move_in_direction(Direction::Left);
    pos.move_in_direction(Direction::Left);
    assert_eq!(pos, GridPosition::new(-1, 1));
}

#[test]
fn new_in_direction_leaves_the_position() {
    let pos = GridPosition::new(2, 3);
    let next = pos.new_in_direction(Direction::DownLeft);
    assert_eq!(pos, GridPosition::new(2, 3));
    assert_eq!(next, GridPosition::new(1, 4));
}

#[test]
fn steps_at_the_edge_of_the_integers() {
    let top = GridPosition::new(i32::MIN + 1, i32::MAX - 1);
    assert_eq!(top.new_in_direction(Direction::DownLeft), GridPosition::new(i32::MIN, i32::MAX));
}

#[test]
fn to_world_multiplies_by_the_cell_size() {
    let grid = Grid::new((32, 16), (30, 30));
    assert_eq!(GridPosition::new(3, 4).to_world(&grid), WorldPosition::new(96, 64));
    assert_eq!(GridPosition::new(0, 0).to_world(&grid), WorldPosition::new(0, 0));
    assert_eq!(GridPosition::new(-2, 29).to_world(&grid), WorldPosition::new(-64, 464));
}

#[test]
fn to_grid_divides_and_truncates() {
    let grid = Grid::new((32, 32), (30, 30));
    assert_eq!(WorldPosition::new(100, 70).to_grid(&grid), GridPosition::new(3, 2));
    assert_eq!(WorldPosition::new(31, 32).to_grid(&grid), GridPosition::new(0, 1));
    assert_eq!(WorldPosition::new(959, 0).to_grid(&grid), GridPosition::new(29, 0));
}

#[test]
fn to_grid_truncates_towards_zero_below_zero() {
    let grid = Grid::new((32, 32), (30, 30));
    assert_eq!(WorldPosition::new(-100, -1).to_grid(&grid), GridPosition::new(-3, 0));
    assert_eq!(WorldPosition::new(-32, -33).to_grid(&grid), GridPosition::new(-1, -1));
}

#[test]
fn world_and_back() {
    let grid = Grid::new((8, 5), (10, 10));
    for x in 0..10 {
        for y in 0..10 {
            let pos = GridPosition::new(x, y);
            assert_eq!(pos.to_world(&grid).to_grid(&grid), pos);
        }
    }
}

#[test]
fn is_at_max_y_names_the_bottom_row() {
    let grid = Grid::new((1, 1), (3, 4));
    assert!(GridPosition::new(0, 3).is_at_max_y(&grid));
    assert!(GridPosition::new(7, 3).is_at_max_y(&grid));
    assert!(!GridPosition::new(0, 2).is_at_max_y(&grid));
    assert!(!GridPosition::new(0, 4).is_at_max_y(&grid));
    let empty = Grid::new((1, 1), (0, 0));
    assert!(GridPosition::new(0, -1).is_at_max_y(&empty));
}

#[test]
fn into_grid_coord_gives_x_then_y() {
    assert_eq!(GridPosition::new(3, 9).into_grid_coord(), (3usize, 9usize));
    assert_eq!(GridPosition::new(0, 0).into_grid_coord(), (0usize, 0usize));
    assert_eq!(
        GridPosition::new(i32::MAX, 1).into_grid_coord(),
        (2147483647usize, 1usize)
    );
}

#[test]
fn positions_from_pairs() {
    assert_eq!(GridPosition::from((4, -2)), GridPosition::new(4, -2));
    assert_eq!(WorldPosition::from((640, 480)), WorldPosition::new(640, 480));
    let pos: GridPosition = (1, 2).into();
    assert_eq!((pos.x, pos.y), (1, 2));
    let world: WorldPosition = (3, 4).into();
    assert_eq!((world.x, world.y), (3, 4));
}
