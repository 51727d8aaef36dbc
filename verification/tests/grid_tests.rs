use mapgen_core::error::GenError;
use mapgen_core::kernel::Kernel;
use mapgen_core::map_grid::MapGrid;
use mapgen_core::position::Position;
use mapgen_core::tile::{Overwrite, Tile};

#[test]
fn fresh_grid_is_uniform_fill() {
    let g = MapGrid::new(20, 10, Tile::Hookable).unwrap();
    assert_eq!(g.width, 20);
    assert_eq!(g.height, 10);
    for x in 0..20 {
        for y in 0..10 {
            assert_eq!(g.tile_at(x, y), Tile::Hookable);
        }
    }
}

#[test]
fn zero_dimension_is_rejected() {
    assert!(matches!(MapGrid::new(0, 10, Tile::Empty), Err(GenError::OutOfBounds)));
    assert!(matches!(MapGrid::new(10, 0, Tile::Empty), Err(GenError::OutOfBounds)));
}

#[test]
fn set_tile_honours_the_overwrite_policy() {
    let mut g = MapGrid::new(8, 8, Tile::Hookable).unwrap();
    // ReplaceEmptyOnly cannot write over solid fill.
    g.set_tile(Position::new(1, 1), Tile::Freeze, Overwrite::ReplaceEmptyOnly).unwrap();
    assert_eq!(g.tile_at(1, 1), Tile::Hookable);
    // Force always writes.
    g.set_tile(Position::new(1, 1), Tile::Empty, Overwrite::Force).unwrap();
    assert_eq!(g.tile_at(1, 1), Tile::Empty);
    // ReplaceSolidOnly skips the now-empty cell.
    g.set_tile(Position::new(1, 1), Tile::Freeze, Overwrite::ReplaceSolidOnly).unwrap();
    assert_eq!(g.tile_at(1, 1), Tile::Empty);
    // ReplaceNonSolidForce writes over it.
    g.set_tile(Position::new(1, 1), Tile::Spawn, Overwrite::ReplaceNonSolidForce).unwrap();
    assert_eq!(g.tile_at(1, 1), Tile::Spawn);
    // Out of bounds fails.
    assert!(matches!(
        g.set_tile(Position::new(8, 0), Tile::Empty, Overwrite::Force),
        Err(GenError::OutOfBounds)
    ));
}

#[test]
fn set_area_fills_the_inclusive_rectangle() {
    let mut g = MapGrid::new(10, 10, Tile::Hookable).unwrap();
    g.set_area(Position::new(2, 3), Position::new(4, 5), Tile::Empty, Overwrite::Force).unwrap();
    for x in 0..10 {
        for y in 0..10 {
            let inside = x >= 2 && x <= 4 && y >= 3 && y <= 5;
            let expect = if inside { Tile::Empty } else { Tile::Hookable };
            assert_eq!(g.tile_at(x, y), expect);
        }
    }
}

#[test]
fn set_area_border_draws_only_the_outline() {
    let mut g = MapGrid::new(10, 10, Tile::Hookable).unwrap();
    g.set_area_border(Position::new(2, 2), Position::new(6, 6), Tile::Freeze, Overwrite::Force)
        .unwrap();
    assert_eq!(g.tile_at(2, 2), Tile::Freeze);
    assert_eq!(g.tile_at(6, 4), Tile::Freeze);
    assert_eq!(g.tile_at(4, 2), Tile::Freeze);
    assert_eq!(g.tile_at(3, 3), Tile::Hookable);
    assert_eq!(g.tile_at(4, 4), Tile::Hookable);
}

#[test]
fn area_queries_report_exactly() {
    let mut g = MapGrid::new(10, 10, Tile::Hookable).unwrap();
    g.set_tile(Position::new(5, 5), Tile::Freeze, Overwrite::Force).unwrap();
    let tl = Position::new(4, 4);
    let br = Position::new(6, 6);
    assert!(g.check_area_exists(tl, br, Tile::Freeze).unwrap());
    assert!(!g.check_area_exists(tl, br, Tile::Empty).unwrap());
    assert!(!g.check_area_all(tl, br, Tile::Hookable).unwrap());
    assert_eq!(g.count_occurrence_in_area(tl, br, Tile::Freeze).unwrap(), 1);
    assert_eq!(g.count_occurrence_in_area(tl, br, Tile::Hookable).unwrap(), 8);
}

#[test]
fn clear_restores_the_initial_fill_and_clean_chunks() {
    let mut g = MapGrid::new(40, 40, Tile::Hookable).unwrap();
    g.set_area(Position::new(0, 0), Position::new(39, 39), Tile::Empty, Overwrite::Force).unwrap();
    g.clear();
    for x in 0..40 {
        for y in 0..40 {
            assert_eq!(g.tile_at(x, y), Tile::Hookable);
        }
    }
    for d in g.dirty.iter() {
        assert!(!d);
    }
}

#[test]
fn writes_mark_their_chunk_dirty() {
    let mut g = MapGrid::new(40, 40, Tile::Hookable).unwrap();
    assert!(g.dirty.iter().all(|d| !d));
    g.set_tile(Position::new(20, 5), Tile::Empty, Overwrite::Force).unwrap();
    assert!(g.dirty.iter().any(|d| *d));
}

#[test]
fn unit_kernel_on_the_exact_border_is_rejected() {
    let mut g = MapGrid::new(10, 10, Tile::Hookable).unwrap();
    let k = Kernel::new(1, 0);
    assert!(!g.apply_kernel(Position::new(0, 5), &k, Tile::Empty, Overwrite::Force));
    assert!(!g.apply_kernel(Position::new(9, 5), &k, Tile::Empty, Overwrite::Force));
    assert!(!g.apply_kernel(Position::new(5, 0), &k, Tile::Empty, Overwrite::Force));
    assert!(!g.apply_kernel(Position::new(5, 9), &k, Tile::Empty, Overwrite::Force));
    for x in 0..10 {
        for y in 0..10 {
            assert_eq!(g.tile_at(x, y), Tile::Hookable);
        }
    }
    assert!(g.apply_kernel(Position::new(5, 5), &k, Tile::Empty, Overwrite::Force));
    assert_eq!(g.tile_at(5, 5), Tile::Empty);
}

#[test]
fn kernel_stamps_only_over_carvable_tiles() {
    let mut g = MapGrid::new(12, 12, Tile::Hookable).unwrap();
    g.set_tile(Position::new(5, 5), Tile::Spawn, Overwrite::Force).unwrap();
    g.set_tile(Position::new(6, 5), Tile::Freeze, Overwrite::Force).unwrap();
    let k = Kernel::new(3, 0);
    assert!(g.apply_kernel(Position::new(5, 5), &k, Tile::Empty, Overwrite::Force));
    // The spawn cell is neither hookable nor freeze: untouched.
    assert_eq!(g.tile_at(5, 5), Tile::Spawn);
    // Hookable and freeze cells inside the stamp are carved.
    assert_eq!(g.tile_at(6, 5), Tile::Empty);
    assert_eq!(g.tile_at(4, 4), Tile::Empty);
}

#[test]
fn oversized_kernel_near_the_border_is_rejected() {
    let mut g = MapGrid::new(10, 10, Tile::Hookable).unwrap();
    let k = Kernel::new(7, 0);
    assert!(!g.apply_kernel(Position::new(2, 5), &k, Tile::Empty, Overwrite::Force));
    assert!(g.apply_kernel(Position::new(5, 5), &k, Tile::Empty, Overwrite::Force));
}
