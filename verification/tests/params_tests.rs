use mapgen_core::config::{GeneratorParams, WalkerParams};
use mapgen_core::error::GenError;
use mapgen_core::generator::Generator;
use mapgen_core::tile::Tile;
use mapgen_core::walker::NormalWaypoints;

#[test]
fn generator_params_round_trip_exactly() {
    let p = GeneratorParams {
        platform_distance_bounds: (17, 230),
        max_distance_sqr: 64,
        waypoint_reached_dist: 2,
        skip_length_bounds: (4, 11),
        skip_min_spacing_sqr: 900,
        min_freeze_size: 12,
    };
    let q = p.reencode().unwrap();
    assert_eq!(q.platform_distance_bounds, (17, 230));
    assert_eq!(q.max_distance_sqr, 64);
    assert_eq!(q.waypoint_reached_dist, 2);
    assert_eq!(q.skip_length_bounds, (4, 11));
    assert_eq!(q.skip_min_spacing_sqr, 900);
    assert_eq!(q.min_freeze_size, 12);
}

#[test]
fn malformed_field_lists_are_rejected() {
    assert!(GeneratorParams::from_fields(&vec![1, 2, 3]).is_none());
    assert!(GeneratorParams::from_fields(&vec![0; 9]).is_none());
    assert!(GeneratorParams::from_fields(&vec![0; 8]).is_some());
}

#[test]
fn reencoded_params_drive_identical_output() {
    let wps = NormalWaypoints::from_coords(vec![(0, 500), (1000, 500)]);
    let p = GeneratorParams::easy();
    let q = GeneratorParams::from_fields(&p.to_fields()).unwrap();
    let mut a = Generator::new(p, &WalkerParams::easy(), &wps, 0xFEED, 120, 80).unwrap();
    let mut b = Generator::new(q, &WalkerParams::easy(), &wps, 0xFEED, 120, 80).unwrap();
    a.finalize(200_000).unwrap();
    b.finalize(200_000).unwrap();
    for x in 0..120 {
        for y in 0..80 {
            assert_eq!(a.map.tile_at(x, y), b.map.tile_at(x, y));
        }
    }
}

#[test]
fn waypoints_bind_inside_the_margin() {
    let wps = NormalWaypoints::from_coords(vec![(0, 0), (1000, 1000), (500, 500)]);
    let bound = wps.bind(300, 150);
    assert_eq!(bound.len(), 3);
    assert_eq!(bound[0].x, 10);
    assert_eq!(bound[0].y, 10);
    assert_eq!(bound[1].x, 289);
    assert_eq!(bound[1].y, 139);
    assert_eq!(bound[2].x, 149);
    assert_eq!(bound[2].y, 74);
}

#[test]
fn tile_solidity_matches_the_taxonomy() {
    assert!(Tile::Hookable.is_solid());
    assert!(Tile::Freeze.is_solid());
    assert!(Tile::Platform.is_solid());
    assert!(!Tile::Empty.is_solid());
    assert!(!Tile::EmptyReserved.is_solid());
    assert!(!Tile::Spawn.is_solid());
    assert!(!Tile::Start.is_solid());
    assert!(!Tile::Finish.is_solid());
}

#[test]
fn error_tags_are_distinct() {
    let tags = [
        GenError::WalkerFinished.tag(),
        GenError::OutOfBounds.tag(),
        GenError::RoomOutOfBounds.tag(),
        GenError::NoGoal.tag(),
        GenError::EmptyDistribution.tag(),
    ];
    for i in 0..tags.len() {
        for j in 0..tags.len() {
            if i != j {
                assert_ne!(tags[i], tags[j]);
            }
        }
    }
}
