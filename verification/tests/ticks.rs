use particles::grid::{Grid, GridPosition};
use particles::pixel::{MaterialType, UnpackedPixel};
use rand::rngs::StdRng;
use rand::SeedableRng;

fn material(grid: &Grid, x: i32, y: i32) -> MaterialType {
    grid.cell_at(GridPosition::new(x, y)).unwrap().material_type
}

fn build(width: i32, height: i32, cells: &[(i32, i32, MaterialType, u8)]) -> Grid {
    let mut grid = Grid::new((1, 1), (width, height));
    for &(x, y, material, fill) in cells {
        assert_eq!(grid.place(GridPosition::new(x, y), material, fill), Ok(()));
    }
    grid
}

fn census(grid: &Grid) -> Vec<(u8, u8)> {
    let (width, height) = grid.grid_size();
    let mut found = Vec::new();
    for y in 0..height {
        for x in 0..width {
            let cell = grid.cell_at(GridPosition::new(x, y)).unwrap();
            if cell.material_type != MaterialType::Nothing {
                found.push((cell.material_type.to_u8(), cell.fill_level));
            }
        }
    }
    found.sort();
    found
}

fn scattered(width: i32, height: i32, seed: u32) -> Grid {
    let mut grid = Grid::new((1, 1), (width, height));
    let mut state = seed;
    for y in 0..height {
        for x in 0..width {
            state = state.wrapping_mul(1664525).wrapping_add(1013904223);
            let pick = (state >> 24) % 8;
            let fill = (state >> 8) as u8;
            let material = match pick {
                0 | 1 => Some(MaterialType::Sand),
                2 | 3 => Some(MaterialType::Water),
                4 => Some(MaterialType::Concrete),
                _ => None,
            };
            if let Some(material) = material {
                assert_eq!(grid.place(GridPosition::new(x, y), material, fill), Ok(()));
            }
        }
    }
    grid
}

#[test]
fn sand_over_free_cells_falls_straight_down() {
    for seed in 0..8u64 {
        let mut grid = build(3, 3, &[(1, 0, MaterialType::Sand, 0)]);
        let mut rng = StdRng::seed_from_u64(seed);
        grid.update(&mut rng);
        assert_eq!(material(&grid, 1, 0), MaterialType::Nothing);
        assert_eq!(material(&grid, 1, 1), MaterialType::Sand);
        assert_eq!(material(&grid, 0, 1), MaterialType::Nothing);
        assert_eq!(material(&grid, 2, 1), MaterialType::Nothing);
        assert_eq!(census(&grid).len(), 1);
    }
}

#[test]
fn sand_over_concrete_settles_on_one_diagonal() {
    let mut went_left = 0;
    let mut went_right = 0;
    for seed in 0..64u64 {
        let mut grid = build(
            3,
            3,
            &[(1, 0, MaterialType::Sand, 0), (1, 1, MaterialType::Concrete, 0)],
        );
        let mut rng = StdRng::seed_from_u64(seed);
        grid.update(&mut rng);
        assert_eq!(material(&grid, 1, 0), MaterialType::Nothing);
        assert_eq!(material(&grid, 1, 1), MaterialType::Concrete);
        let left = material(&grid, 0, 1) == MaterialType::Sand;
        let right = material(&grid, 2, 1) == MaterialType::Sand;
        assert!(left != right);
        if left {
            assert_eq!(material(&grid, 2, 1), MaterialType::Nothing);
            went_left += 1;
        } else {
            assert_eq!(material(&grid, 0, 1), MaterialType::Nothing);
            went_right += 1;
        }
        assert_eq!(census(&grid).len(), 2);
    }
    assert!(went_left > 0);
    assert!(went_right > 0);
}

#[test]
fn sand_on_sand_in_a_single_column_stays() {
    for seed in 0..8u64 {
        let cells = [(0, 0, MaterialType::Sand, 1), (0, 1, MaterialType::Sand, 2)];
        let mut grid = build(1, 2, &cells);
        let mut rng = StdRng::seed_from_u64(seed);
        grid.update(&mut rng);
        assert_eq!(grid, build(1, 2, &cells));
        assert_eq!(
            grid.cell_at(GridPosition::new(0, 0)),
            Ok(UnpackedPixel { material_type: MaterialType::Sand, fill_level: 1 })
        );
        assert_eq!(
            grid.cell_at(GridPosition::new(0, 1)),
            Ok(UnpackedPixel { material_type: MaterialType::Sand, fill_level: 2 })
        );
    }
}

#[test]
fn a_tick_keeps_every_particle() {
    for seed in 0..16u32 {
        let mut grid = scattered(9, 7, seed);
        let before = census(&grid);
        let mut rng = StdRng::seed_from_u64(seed as u64);
        for _ in 0..10 {
            grid.update(&mut rng);
            assert_eq!(census(&grid), before);
            assert_eq!(grid.grid_size(), (9, 7));
        }
    }
}

#[test]
fn a_particle_moves_one_row_per_tick() {
    let mut grid = build(3, 6, &[(1, 0, MaterialType::Sand, 42)]);
    let mut rng = StdRng::seed_from_u64(7);
    for tick in 1..=5 {
        grid.update(&mut rng);
        for y in 0..6 {
            let expected = if y == tick { MaterialType::Sand } else { MaterialType::Nothing };
            assert_eq!(material(&grid, 1, y), expected);
        }
    }
    grid.update(&mut rng);
    assert_eq!(material(&grid, 1, 5), MaterialType::Sand);
    assert_eq!(census(&grid), vec![(1, 42)]);
}

#[test]
fn a_column_of_sand_falls_as_one() {
    let cells = [
        (0, 0, MaterialType::Sand, 10),
        (0, 1, MaterialType::Sand, 11),
        (0, 2, MaterialType::Sand, 12),
    ];
    let mut grid = build(1, 6, &cells);
    let mut rng = StdRng::seed_from_u64(3);
    grid.update(&mut rng);
    let fills: Vec<Option<u8>> = (0..6)
        .map(|y| {
            let cell = grid.cell_at(GridPosition::new(0, y)).unwrap();
            if cell.material_type == MaterialType::Sand {
                Some(cell.fill_level)
            } else {
                None
            }
        })
        .collect();
    assert_eq!(fills, vec![None, Some(10), Some(11), Some(12), None, None]);
}

#[test]
fn every_particle_is_found_within_one_step() {
    for seed in 0..16u32 {
        let mut grid = Grid::new((1, 1), (8, 8));
        let mut state = seed.wrapping_mul(2654435761);
        let mut fill = 0u8;
        let mut placed = Vec::new();
        for y in 0..8 {
            for x in 0..8 {
                state = state.wrapping_mul(1664525).wrapping_add(1013904223);
                if (state >> 28) < 5 {
                    fill += 1;
                    assert_eq!(
                        grid.place(GridPosition::new(x, y), MaterialType::Sand, fill),
                        Ok(())
                    );
                    placed.push((x, y, fill));
                }
            }
        }
        let mut rng = StdRng::seed_from_u64(seed as u64);
        grid.update(&mut rng);
        for (x, y, fill) in placed {
            let candidates = [(x, y), (x, y + 1), (x - 1, y + 1), (x + 1, y + 1)];
            let hits = candidates
                .iter()
                .filter(|&&(cx, cy)| {
                    grid.cell_at(GridPosition::new(cx, cy))
                        == Ok(UnpackedPixel { material_type: MaterialType::Sand, fill_level: fill })
                })
                .count();
            assert_eq!(hits, 1);
        }
    }
}

#[test]
fn gravity_comes_before_the_diagonals() {
    for seed in 0..32u64 {
        let mut grid = build(
            3,
            2,
            &[(1, 0, MaterialType::Water, 0)],
        );
        let mut rng = StdRng::seed_from_u64(seed);
        grid.update(&mut rng);
        assert_eq!(material(&grid, 1, 1), MaterialType::Water);
        assert_eq!(material(&grid, 0, 1), MaterialType::Nothing);
        assert_eq!(material(&grid, 2, 1), MaterialType::Nothing);
        assert_eq!(material(&grid, 1, 0), MaterialType::Nothing);
    }
}

#[test]
fn a_settled_heap_does_not_move() {
    let cells = [
        (1, 0, MaterialType::Sand, 0),
        (0, 1, MaterialType::Sand, 0),
        (1, 1, MaterialType::Water, 0),
        (2, 1, MaterialType::Sand, 0),
    ];
    for seed in 0..8u64 {
        let mut grid = build(3, 2, &cells);
        let mut rng = StdRng::seed_from_u64(seed);
        grid.update(&mut rng);
        assert_eq!(grid, build(3, 2, &cells));
    }
}

#[test]
fn concrete_stays_in_mid_air() {
    let cells = [(1, 0, MaterialType::Concrete, 7)];
    let mut grid = build(3, 3, &cells);
    let mut rng = StdRng::seed_from_u64(11);
    for _ in 0..5 {
        grid.update(&mut rng);
    }
    assert_eq!(grid, build(3, 3, &cells));
}

#[test]
fn water_rests_in_a_tick_without_spreading() {
    let cells = [(2, 0, MaterialType::Water, 0)];
    let mut grid = build(5, 1, &cells);
    let mut rng = StdRng::seed_from_u64(5);
    for _ in 0..4 {
        grid.update(&mut rng);
    }
    assert_eq!(grid, build(5, 1, &cells));
}

#[test]
fn the_same_seed_gives_the_same_ticks() {
    for seed in 0..8u32 {
        let mut first = scattered(12, 10, seed);
        let mut second = scattered(12, 10, seed);
        let mut first_rng = StdRng::seed_from_u64(99 + seed as u64);
        let mut second_rng = StdRng::seed_from_u64(99 + seed as u64);
        for _ in 0..12 {
            first.update(&mut first_rng);
            second.update(&mut second_rng);
            assert_eq!(first, second);
        }
    }
}

#[test]
fn a_tick_of_an_empty_or_cell_less_grid_changes_nothing() {
    let mut rng = StdRng::seed_from_u64(0);
    let mut blank = Grid::new((4, 4), (6, 5));
    blank.update(&mut rng);
    assert_eq!(blank, Grid::new((4, 4), (6, 5)));
    let mut flat = Grid::new((4, 4), (6, 0));
    flat.update(&mut rng);
    assert_eq!(flat.grid_size(), (6, 0));
    let mut thin = Grid::new((4, 4), (0, 6));
    thin.update(&mut rng);
    assert_eq!(thin.grid_size(), (0, 6));
}

#[test]
fn sand_piles_up_over_many_ticks() {
    let mut grid = build(5, 4, &[]);
    let mut rng = StdRng::seed_from_u64(2024);
    for _ in 0..3 {
        assert_eq!(grid.place(GridPosition::new(2, 0), MaterialType::Sand, 0), Ok(()));
        for _ in 0..6 {
            grid.update(&mut rng);
        }
    }
    assert_eq!(census(&grid).len(), 3);
    for x in 0..5 {
        for y in 0..3 {
            assert_eq!(material(&grid, x, y), MaterialType::Nothing);
        }
    }
    assert_eq!(material(&grid, 2, 3), MaterialType::Sand);
    assert_eq!(material(&grid, 1, 3), MaterialType::Sand);
    assert_eq!(material(&grid, 3, 3), MaterialType::Sand);
}
