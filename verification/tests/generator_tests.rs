use mapgen_core::config::{GeneratorParams, WalkerParams};
use mapgen_core::generator::Generator;
use mapgen_core::tile::Tile;
use mapgen_core::walker::NormalWaypoints;

fn left_to_right_waypoints() -> NormalWaypoints {
    NormalWaypoints::from_coords(vec![(0, 500), (1000, 500)])
}

fn grids_equal(a: &Generator, b: &Generator) -> bool {
    if a.map.width != b.map.width || a.map.height != b.map.height {
        return false;
    }
    for x in 0..a.map.width {
        for y in 0..a.map.height {
            if a.map.tile_at(x, y) != b.map.tile_at(x, y) {
                return false;
            }
        }
    }
    true
}

#[test]
fn easy_run_crosses_the_map() {
    let wps = left_to_right_waypoints();
    let mut gen = Generator::new(
        GeneratorParams::easy(),
        &WalkerParams::easy(),
        &wps,
        0xDEADBEEF,
        300,
        150,
    )
    .unwrap();
    gen.finalize(200_000).unwrap();
    assert!(gen.walker.finished);
    // The finish room ring sits near the right edge.
    let mut finish_found = false;
    for x in 250..300 {
        for y in 0..150 {
            if gen.map.tile_at(x, y) == Tile::Finish {
                finish_found = true;
            }
        }
    }
    assert!(finish_found);
    // At least one skip was accepted.
    assert!(gen.skips_placed >= 1);
    // No 4-connected empty-hookable pair anywhere.
    for x in 0..300usize {
        for y in 0..150usize {
            if gen.map.tile_at(x, y) == Tile::Empty {
                if x > 0 {
                    assert_ne!(gen.map.tile_at(x - 1, y), Tile::Hookable);
                }
                if x + 1 < 300 {
                    assert_ne!(gen.map.tile_at(x + 1, y), Tile::Hookable);
                }
                if y > 0 {
                    assert_ne!(gen.map.tile_at(x, y - 1), Tile::Hookable);
                }
                if y + 1 < 150 {
                    assert_ne!(gen.map.tile_at(x, y + 1), Tile::Hookable);
                }
            }
        }
    }
    // No reserved marker survives outside the reserved rectangles.
    for x in 0..300usize {
        for y in 0..150usize {
            if gen.map.tile_at(x, y) == Tile::EmptyReserved {
                assert!(gen.map.pos_reserved(x, y));
            }
        }
    }
}

#[test]
fn generation_is_deterministic() {
    let wps = left_to_right_waypoints();
    let mut a = Generator::new(
        GeneratorParams::easy(),
        &WalkerParams::easy(),
        &wps,
        0xDEADBEEF,
        120,
        80,
    )
    .unwrap();
    let mut b = Generator::new(
        GeneratorParams::easy(),
        &WalkerParams::easy(),
        &wps,
        0xDEADBEEF,
        120,
        80,
    )
    .unwrap();
    a.finalize(200_000).unwrap();
    b.finalize(200_000).unwrap();
    assert!(grids_equal(&a, &b));
}

#[test]
fn restart_reproduces_the_first_run() {
    let wps = left_to_right_waypoints();
    let mut a = Generator::new(
        GeneratorParams::easy(),
        &WalkerParams::easy(),
        &wps,
        0x1234_5678,
        120,
        80,
    )
    .unwrap();
    let mut b = Generator::new(
        GeneratorParams::easy(),
        &WalkerParams::easy(),
        &wps,
        0x1234_5678,
        120,
        80,
    )
    .unwrap();
    a.finalize(200_000).unwrap();
    b.finalize(200_000).unwrap();
    // Clear the map and run afresh from the same seed.
    b.restart(0x1234_5678);
    b.finalize(200_000).unwrap();
    assert!(grids_equal(&a, &b));
}

#[test]
fn different_seed_changes_the_grid() {
    let wps = left_to_right_waypoints();
    let mut a = Generator::new(
        GeneratorParams::easy(),
        &WalkerParams::easy(),
        &wps,
        1,
        120,
        80,
    )
    .unwrap();
    let mut b = Generator::new(
        GeneratorParams::easy(),
        &WalkerParams::easy(),
        &wps,
        2,
        120,
        80,
    )
    .unwrap();
    a.finalize(200_000).unwrap();
    b.finalize(200_000).unwrap();
    assert!(!grids_equal(&a, &b));
}

#[test]
fn exact_waypoint_threshold_completes() {
    let wps = left_to_right_waypoints();
    let mut params = GeneratorParams::easy();
    params.waypoint_reached_dist = 0;
    let mut gen = Generator::new(params, &WalkerParams::easy(), &wps, 0xDEADBEEF, 120, 80)
        .unwrap();
    gen.finalize(200_000).unwrap();
    assert!(gen.walker.finished);
}

#[test]
fn tight_skip_bounds_place_at_most_one_skip() {
    let wps = left_to_right_waypoints();
    let mut params = GeneratorParams::easy();
    params.skip_length_bounds = (3, 3);
    params.skip_min_spacing_sqr = 10_000;
    let mut gen = Generator::new(params, &WalkerParams::easy(), &wps, 0xDEADBEEF, 120, 80)
        .unwrap();
    gen.finalize(200_000).unwrap();
    assert!(gen.skips_placed <= 1);
}

#[test]
fn zero_freeze_size_keeps_every_blob() {
    let wps = left_to_right_waypoints();
    let mut with_removal = GeneratorParams::easy();
    with_removal.min_freeze_size = 64;
    let mut without = GeneratorParams::easy();
    without.min_freeze_size = 0;
    let mut a = Generator::new(with_removal, &WalkerParams::easy(), &wps, 0xABCDEF, 120, 80)
        .unwrap();
    let mut b = Generator::new(without, &WalkerParams::easy(), &wps, 0xABCDEF, 120, 80).unwrap();
    a.finalize(200_000).unwrap();
    b.finalize(200_000).unwrap();
    let count = |g: &Generator| {
        let mut n = 0usize;
        for x in 0..g.map.width {
            for y in 0..g.map.height {
                if g.map.tile_at(x, y) == Tile::Freeze {
                    n += 1;
                }
            }
        }
        n
    };
    assert!(count(&b) >= count(&a));
}

#[test]
fn zero_fade_uses_mutated_sizes_from_the_first_step() {
    let wps = left_to_right_waypoints();
    let mut wparams = WalkerParams::easy();
    wparams.fade_steps = 0;
    wparams.inner_size_mut_prob = 1_000_000;
    let mut gen = Generator::new(
        GeneratorParams::easy(),
        &wparams,
        &wps,
        0xDEADBEEF,
        120,
        80,
    )
    .unwrap();
    // After a few steps the kernel mutation has run at least once; with
    // a certain mutation probability it must sample one of the table
    // sizes, with no fade ramp in between.
    for _ in 0..5 {
        gen.step().unwrap();
    }
    let s = gen.walker.inner_kernel.size;
    assert!(s == 3 || s == 4 || s == 5);
}

#[test]
fn single_waypoint_finishes_in_one_step_with_both_rooms() {
    let wps = NormalWaypoints::from_coords(vec![(500, 500)]);
    let mut gen = Generator::new(
        GeneratorParams::easy(),
        &WalkerParams::easy(),
        &wps,
        99,
        80,
        80,
    )
    .unwrap();
    gen.step().unwrap();
    assert!(gen.walker.finished);
    let mut gen2 = Generator::new(
        GeneratorParams::easy(),
        &WalkerParams::easy(),
        &wps,
        99,
        80,
        80,
    )
    .unwrap();
    gen2.finalize(10).unwrap();
    assert!(gen2.walker.finished);
    // Both rooms sit at the same position; the finish ring wins.
    let mut finish_found = false;
    for x in 0..80 {
        for y in 0..80 {
            if gen2.map.tile_at(x, y) == Tile::Finish {
                finish_found = true;
            }
        }
    }
    assert!(finish_found);
}

#[test]
fn empty_shift_weights_are_rejected() {
    let wps = left_to_right_waypoints();
    let mut wparams = WalkerParams::easy();
    wparams.shift_weights = mapgen_core::dist::RandomDistConfig::new();
    let r = Generator::new(GeneratorParams::easy(), &wparams, &wps, 1, 120, 80);
    assert!(matches!(r, Err(mapgen_core::error::GenError::EmptyDistribution)));
}

#[test]
fn clear_resets_the_map_to_solid_fill() {
    let wps = left_to_right_waypoints();
    let mut gen = Generator::new(
        GeneratorParams::easy(),
        &WalkerParams::easy(),
        &wps,
        5,
        120,
        80,
    )
    .unwrap();
    gen.finalize(200_000).unwrap();
    gen.clear();
    for x in 0..120 {
        for y in 0..80 {
            assert_eq!(gen.map.tile_at(x, y), Tile::Hookable);
        }
    }
}

#[test]
fn sampling_cadence_is_independent_of_fired_branches() {
    // Kernel mutation consumes the same number of stream words whichever
    // probabilistic branches fire, so two walkers whose parameters differ
    // only in the mutation probabilities stay aligned on the stream and
    // follow the same path.
    let wps = left_to_right_waypoints();
    let mut never = WalkerParams::easy();
    never.inner_size_mut_prob = 0;
    never.outer_size_mut_prob = 0;
    never.inner_rad_mut_prob = 0;
    never.outer_rad_mut_prob = 0;
    let mut always = WalkerParams::easy();
    always.inner_size_mut_prob = 1_000_000;
    always.outer_size_mut_prob = 1_000_000;
    always.inner_rad_mut_prob = 1_000_000;
    always.outer_rad_mut_prob = 1_000_000;
    let mut a = Generator::new(GeneratorParams::easy(), &never, &wps, 0xCAFE, 120, 80).unwrap();
    let mut b = Generator::new(GeneratorParams::easy(), &always, &wps, 0xCAFE, 120, 80).unwrap();
    for _ in 0..200 {
        if a.walker.finished || b.walker.finished {
            break;
        }
        a.step().unwrap();
        b.step().unwrap();
    }
    assert_eq!(a.walker.pos, b.walker.pos);
    assert_eq!(a.walker.get_current_step(), b.walker.get_current_step());
}

#[test]
fn pulse_widens_long_straight_runs() {
    let wps = left_to_right_waypoints();
    let mut wparams = WalkerParams::easy();
    wparams.pulse = Some(mapgen_core::config::PulseParams {
        straight_delay: 3,
        corner_delay: 6,
        max_kernel_size: 10,
    });
    let mut gen = Generator::new(
        GeneratorParams::easy(),
        &wparams,
        &wps,
        0xDEADBEEF,
        120,
        80,
    )
    .unwrap();
    gen.finalize(200_000).unwrap();
    assert!(gen.walker.finished);
}
