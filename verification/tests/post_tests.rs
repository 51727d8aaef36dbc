use mapgen_core::error::GenError;
use mapgen_core::map_grid::MapGrid;
use mapgen_core::position::Position;
use mapgen_core::post_processing::{
    fill_open_areas, fix_edge_bugs, generate_all_skips, generate_room, remove_freeze_blobs,
};
use mapgen_core::tile::{Overwrite, Tile};

#[test]
fn room_at_the_origin_is_out_of_bounds() {
    let mut g = MapGrid::new(50, 50, Tile::Hookable).unwrap();
    let r = generate_room(&mut g, Position::new(0, 0), 3, 3, None);
    assert_eq!(r, Err(GenError::RoomOutOfBounds));
}

#[test]
fn room_layers_are_stamped_in_order() {
    let mut g = MapGrid::new(40, 40, Tile::Hookable).unwrap();
    generate_room(&mut g, Position::new(20, 20), 6, 3, Some(Tile::Start)).unwrap();
    // Border at radius 6 is empty.
    assert_eq!(g.tile_at(14, 20), Tile::Empty);
    assert_eq!(g.tile_at(26, 20), Tile::Empty);
    // Interior is reserved.
    assert_eq!(g.tile_at(20, 20), Tile::EmptyReserved);
    // Zone ring at radius 7 over the solid fill becomes a freeze shim.
    assert_eq!(g.tile_at(13, 20), Tile::Freeze);
    // Spawn row: y = 20 + 6 - 1, x within the margin span.
    assert_eq!(g.tile_at(20, 25), Tile::Spawn);
    assert_eq!(g.tile_at(23, 25), Tile::Spawn);
    // Platform row below the room.
    assert_eq!(g.tile_at(20, 27), Tile::Platform);
}

#[test]
fn zone_ring_covers_cleared_ground() {
    let mut g = MapGrid::new(40, 40, Tile::Hookable).unwrap();
    g.set_area(Position::new(5, 5), Position::new(35, 35), Tile::Empty, Overwrite::Force).unwrap();
    generate_room(&mut g, Position::new(20, 20), 4, 3, Some(Tile::Finish)).unwrap();
    // The ring at radius 5 was empty, so the zone tile is written.
    assert_eq!(g.tile_at(15, 20), Tile::Finish);
    assert_eq!(g.tile_at(20, 15), Tile::Finish);
}

#[test]
fn edge_bugs_are_fixed_fourconnectedly() {
    let mut g = MapGrid::new(10, 10, Tile::Hookable).unwrap();
    g.set_area(Position::new(3, 3), Position::new(6, 6), Tile::Empty, Overwrite::Force).unwrap();
    fix_edge_bugs(&mut g);
    // Boundary empties touching hookable became freeze.
    assert_eq!(g.tile_at(3, 3), Tile::Freeze);
    assert_eq!(g.tile_at(3, 5), Tile::Freeze);
    // Inner empties stay empty.
    assert_eq!(g.tile_at(4, 4), Tile::Empty);
    // Afterwards no empty cell touches hookable.
    for x in 0..10usize {
        for y in 0..10usize {
            if g.tile_at(x, y) == Tile::Empty {
                if x > 0 {
                    assert_ne!(g.tile_at(x - 1, y), Tile::Hookable);
                }
                if x + 1 < 10 {
                    assert_ne!(g.tile_at(x + 1, y), Tile::Hookable);
                }
                if y > 0 {
                    assert_ne!(g.tile_at(x, y - 1), Tile::Hookable);
                }
                if y + 1 < 10 {
                    assert_ne!(g.tile_at(x, y + 1), Tile::Hookable);
                }
            }
        }
    }
}

#[test]
fn small_isolated_freeze_blob_is_removed() {
    let mut g = MapGrid::new(20, 20, Tile::Empty).unwrap();
    g.set_area(Position::new(5, 5), Position::new(6, 6), Tile::Freeze, Overwrite::Force).unwrap();
    remove_freeze_blobs(&mut g, 8);
    assert_eq!(g.tile_at(5, 5), Tile::Empty);
    assert_eq!(g.tile_at(6, 6), Tile::Empty);
}

#[test]
fn freeze_blob_touching_hookable_is_kept() {
    let mut g = MapGrid::new(20, 20, Tile::Empty).unwrap();
    g.set_area(Position::new(5, 5), Position::new(6, 6), Tile::Freeze, Overwrite::Force).unwrap();
    g.set_tile(Position::new(7, 5), Tile::Hookable, Overwrite::Force).unwrap();
    remove_freeze_blobs(&mut g, 8);
    assert_eq!(g.tile_at(5, 5), Tile::Freeze);
    assert_eq!(g.tile_at(6, 6), Tile::Freeze);
}

#[test]
fn large_freeze_blob_is_kept() {
    let mut g = MapGrid::new(20, 20, Tile::Empty).unwrap();
    g.set_area(Position::new(5, 5), Position::new(8, 8), Tile::Freeze, Overwrite::Force).unwrap();
    remove_freeze_blobs(&mut g, 8);
    assert_eq!(g.tile_at(6, 6), Tile::Freeze);
}

#[test]
fn zero_minimum_disables_blob_removal() {
    let mut g = MapGrid::new(20, 20, Tile::Empty).unwrap();
    g.set_tile(Position::new(5, 5), Tile::Freeze, Overwrite::Force).unwrap();
    remove_freeze_blobs(&mut g, 0);
    assert_eq!(g.tile_at(5, 5), Tile::Freeze);
}

#[test]
fn open_areas_beyond_the_threshold_are_filled() {
    let mut g = MapGrid::new(30, 30, Tile::Hookable).unwrap();
    g.set_area(Position::new(1, 1), Position::new(28, 28), Tile::Empty, Overwrite::Force).unwrap();
    fill_open_areas(&mut g, 25);
    // The centre is far from every solid cell: filled back in.
    assert_eq!(g.tile_at(15, 15), Tile::Hookable);
    // A cell next to the solid border stays empty.
    assert_eq!(g.tile_at(1, 15), Tile::Empty);
}

#[test]
fn stray_reserved_tiles_are_downgraded() {
    let mut g = MapGrid::new(20, 20, Tile::Hookable).unwrap();
    g.set_tile(Position::new(5, 5), Tile::EmptyReserved, Overwrite::Force).unwrap();
    fill_open_areas(&mut g, 1_000_000);
    assert_eq!(g.tile_at(5, 5), Tile::Empty);
}

#[test]
fn reserved_room_interiors_survive_the_fill() {
    let mut g = MapGrid::new(40, 40, Tile::Hookable).unwrap();
    generate_room(&mut g, Position::new(20, 20), 6, 3, None).unwrap();
    fill_open_areas(&mut g, 1_000_000);
    assert_eq!(g.tile_at(20, 20), Tile::EmptyReserved);
}

#[test]
fn skip_is_carved_between_two_passages() {
    // Two horizontal empty corridors with a 4-thick hookable wall between
    // them; a vertical skip should be carved through the wall.
    let mut g = MapGrid::new(20, 20, Tile::Hookable).unwrap();
    g.set_area(Position::new(2, 5), Position::new(17, 6), Tile::Empty, Overwrite::Force).unwrap();
    g.set_area(Position::new(2, 11), Position::new(17, 12), Tile::Empty, Overwrite::Force)
        .unwrap();
    let n = generate_all_skips(&mut g, 3, 6, 4);
    assert!(n >= 1);
    // Some column carries an empty corridor joining the passages.
    let mut found = false;
    for x in 2..18usize {
        if (7..11).all(|y| g.tile_at(x, y) == Tile::Empty) {
            found = true;
        }
    }
    assert!(found);
}

#[test]
fn distant_spacing_permits_at_most_one_skip() {
    let mut g = MapGrid::new(20, 20, Tile::Hookable).unwrap();
    g.set_area(Position::new(2, 5), Position::new(17, 6), Tile::Empty, Overwrite::Force).unwrap();
    g.set_area(Position::new(2, 11), Position::new(17, 12), Tile::Empty, Overwrite::Force)
        .unwrap();
    let n = generate_all_skips(&mut g, 3, 6, 1_000_000);
    assert!(n <= 1);
}

#[test]
fn no_skip_outside_the_length_bounds() {
    let mut g = MapGrid::new(20, 20, Tile::Hookable).unwrap();
    g.set_area(Position::new(2, 5), Position::new(17, 6), Tile::Empty, Overwrite::Force).unwrap();
    g.set_area(Position::new(2, 11), Position::new(17, 12), Tile::Empty, Overwrite::Force)
        .unwrap();
    // The wall is 4 thick; only lengths up to 3 are allowed.
    let n = generate_all_skips(&mut g, 1, 3, 4);
    assert_eq!(n, 0);
}

#[test]
fn lone_freeze_cell_is_always_removed() {
    let mut g = MapGrid::new(20, 20, Tile::Empty).unwrap();
    g.set_tile(Position::new(9, 9), Tile::Freeze, Overwrite::Force).unwrap();
    remove_freeze_blobs(&mut g, 2);
    assert_eq!(g.tile_at(9, 9), Tile::Empty);
}

#[test]
fn threshold_one_keeps_every_blob() {
    let mut g = MapGrid::new(20, 20, Tile::Empty).unwrap();
    g.set_tile(Position::new(9, 9), Tile::Freeze, Overwrite::Force).unwrap();
    remove_freeze_blobs(&mut g, 1);
    assert_eq!(g.tile_at(9, 9), Tile::Freeze);
}

#[test]
fn skipless_grid_reports_zero_and_stays_unchanged() {
    let mut g = MapGrid::new(20, 20, Tile::Hookable).unwrap();
    let n = generate_all_skips(&mut g, 3, 6, 4);
    assert_eq!(n, 0);
    for x in 0..20usize {
        for y in 0..20usize {
            assert_eq!(g.tile_at(x, y), Tile::Hookable);
        }
    }
}
