//! The generator facade: it owns the map and the walker, drives the
//! walk to completion and runs the post-processing passes in their
//! fixed order.

use vstd::prelude::*;

use crate::config::{GeneratorParams, WalkerParams};
use crate::error::GenError;
use crate::map_grid::{spec_in_reserved, MapGrid, MAX_MAP_DIM};
use crate::position::Position;
use crate::random::{Seed, PROB_SCALE};
use crate::tile::Tile;
use crate::walker::{NormalWaypoints, Walker, WAYPOINT_MARGIN};

verus! {

/// The generator: a map, a walker carving it, and the post-processing
/// parameters.
pub struct Generator {
    pub map: MapGrid,
    pub walker: Walker,
    pub params: GeneratorParams,
    pub start_pos: Position,
    /// How many skips the last post-processing run accepted.
    pub skips_placed: usize,
}

impl Generator {
    /// The map and the walker fit together.
    pub open spec fn wf(self) -> bool {
        &&& self.map.wf()
        &&& self.walker.wf()
        &&& self.walker.pos.x < self.map.width
        &&& self.walker.pos.y < self.map.height
        &&& self.start_pos.x < self.map.width
        &&& self.start_pos.y < self.map.height
        &&& forall|i: int|
            0 <= i < self.walker.waypoints@.len() ==> (#[trigger] self.walker.waypoints@[i]).x
                < self.map.width && self.walker.waypoints@[i].y < self.map.height
    }

    /// Build a generator: a fresh solid map, the waypoints bound to its
    /// bounds, and a walker seeded at the first of them.
    pub fn new(
        params: GeneratorParams,
        wparams: &WalkerParams,
        waypoints: &NormalWaypoints,
        seed: Seed,
        width: usize,
        height: usize,
    ) -> (r: Result<Generator, GenError>)
        requires
            waypoints.wf(),
            2 * WAYPOINT_MARGIN < width <= MAX_MAP_DIM,
            2 * WAYPOINT_MARGIN < height <= MAX_MAP_DIM,
            wparams.shift_weights.values@.len() <= PROB_SCALE as int,
            wparams.inner_size_probs.values@.len() <= PROB_SCALE as int,
            wparams.outer_margin_probs.values@.len() <= PROB_SCALE as int,
            wparams.circ_probs.values@.len() <= PROB_SCALE as int,
        ensures
            r is Err <==> (wparams.shift_weights.values@.len() != 4
                || crate::dist::spec_dist_unusable(wparams.shift_weights.values@)
                || crate::dist::spec_dist_unusable(wparams.inner_size_probs.values@)
                || crate::dist::spec_dist_unusable(wparams.outer_margin_probs.values@)
                || crate::dist::spec_dist_unusable(wparams.circ_probs.values@)),
            match r {
                Ok(g) => {
                    &&& g.wf()
                    &&& g.map.width == width
                    &&& g.map.height == height
                    &&& g.map.fill_tile == Tile::Hookable
                    &&& forall|x: int, y: int|
                        g.map.spec_in_bounds(x, y) ==> g.map.spec_tile(x, y) == Tile::Hookable
                    &&& forall|i: int| 0 <= i < g.map.dirty@.len() ==> !g.map.dirty@[i]
                    &&& g.map.reserved@.len() == 0
                    &&& g.walker.rng.seed == seed
                    &&& g.walker.rng.count@ == 0
                    &&& g.walker.steps == 0
                    &&& !g.walker.finished
                    &&& g.walker.goal_index == 0
                    &&& g.walker.next_state is None
                    &&& g.walker.waypoints@.len() == waypoints.waypoints@.len()
                    &&& g.start_pos == g.walker.pos
                    &&& g.params == params
                    &&& g.walker.inner_size_mut_prob == wparams.inner_size_mut_prob
                    &&& g.walker.outer_size_mut_prob == wparams.outer_size_mut_prob
                    &&& g.walker.inner_rad_mut_prob == wparams.inner_rad_mut_prob
                    &&& g.walker.outer_rad_mut_prob == wparams.outer_rad_mut_prob
                    &&& g.walker.momentum_prob == wparams.momentum_prob
                    &&& g.walker.fade_steps as int == crate::walker::spec_clamp(
                        wparams.fade_steps as int,
                        0,
                        crate::walker::STEP_PARAM_CAP as int,
                    )
                    &&& g.walker.waypoint_reached_dist as int == crate::walker::spec_clamp(
                        params.waypoint_reached_dist as int,
                        0,
                        crate::walker::STEP_PARAM_CAP as int,
                    )
                    &&& g.walker.shift_dist.config.values@.len() == 4
                    &&& forall|i: int|
                        0 <= i < 4 ==> (#[trigger] g.walker.shift_dist.config.values@[i]).0 as int
                            == crate::dist::spec_normalized_weight(wparams.shift_weights.values@, i)
                },
                Err(e) => e == GenError::EmptyDistribution,
            },
    {
        let map = match MapGrid::new(width, height, Tile::Hookable) {
            Ok(m) => m,
            Err(_) => {
                proof {
                    assert(false);
                }
                return Err(GenError::NoGoal);
            },
        };
        let bound = waypoints.bind(width, height);
        let walker = match Walker::new(wparams, bound, seed, params.waypoint_reached_dist) {
            Ok(w) => w,
            Err(e) => {
                proof {
                    assert(e == GenError::EmptyDistribution);
                }
                return Err(e);
            },
        };
        let start_pos = walker.pos;
        Ok(Generator { map, walker, params, start_pos, skips_placed: 0 })
    }

    /// Build a generator from a textual seed: the string's stable hash
    /// seeds the stream, so the same text reproduces the same map.
    pub fn new_with_string_seed(
        params: GeneratorParams,
        wparams: &WalkerParams,
        waypoints: &NormalWaypoints,
        seed_text: &str,
        width: usize,
        height: usize,
    ) -> (r: Result<Generator, GenError>)
        requires
            waypoints.wf(),
            2 * WAYPOINT_MARGIN < width <= MAX_MAP_DIM,
            2 * WAYPOINT_MARGIN < height <= MAX_MAP_DIM,
            wparams.shift_weights.values@.len() <= PROB_SCALE as int,
            wparams.inner_size_probs.values@.len() <= PROB_SCALE as int,
            wparams.outer_margin_probs.values@.len() <= PROB_SCALE as int,
            wparams.circ_probs.values@.len() <= PROB_SCALE as int,
        ensures
            match r {
                Ok(g) => {
                    &&& g.wf()
                    &&& g.map.width == width
                    &&& g.map.height == height
                    &&& g.walker.rng.seed == crate::random::string_seed_of(seed_text@)
                    &&& g.walker.rng.count@ == 0
                },
                Err(e) => e == GenError::NoGoal || e == GenError::EmptyDistribution,
            },
    {
        let seed = crate::random::seed_from_str(seed_text);
        Generator::new(params, wparams, waypoints, seed, width, height)
    }

    /// One walker step against the owned map.
    pub fn step(&mut self) -> (r: Result<(), GenError>)
        requires
            old(self).wf(),
        ensures
            final(self).wf(),
            final(self).map.width == old(self).map.width,
            final(self).map.height == old(self).map.height,
            old(self).walker.spec_same_config(final(self).walker),
            final(self).params == old(self).params,
            old(self).walker.finished ==> r == Err::<(), GenError>(GenError::WalkerFinished)
                && *final(self) == *old(self),
            r is Ok ==> !old(self).walker.finished,
    {
        let (pmin, pmax) = self.params.platform_distance_bounds;
        let r = self.walker.step(&mut self.map, pmin, pmax);
        r
    }

    /// Drive the walker to completion (up to `max_steps` steps), then
    /// run the post-processing passes in their fixed order: edge-bug
    /// fixing, the start and finish rooms (the finish room stamped last,
    /// so it wins where they overlap), freeze-blob removal, open-area
    /// filling and skip insertion.  The first error aborts the pipeline:
    /// a walker error leaves the post passes unrun, a room failure the
    /// later passes.  On success the final grid is pinned as the chain
    /// of the six pass relations applied to the walk's result, and no
    /// reserved-marker tile survives outside the reserved interiors.
    pub fn finalize(&mut self, max_steps: usize) -> (r: Result<(), GenError>)
        requires
            old(self).wf(),
        ensures
            final(self).wf(),
            final(self).map.width == old(self).map.width,
            final(self).map.height == old(self).map.height,
            old(self).walker.spec_same_config(final(self).walker),
            match r {
                Ok(()) => {
                    &&& forall|a: int, b: int|
                        final(self).map.spec_in_bounds(a, b) && #[trigger] final(self).map.spec_tile(a, b) == Tile::EmptyReserved ==> spec_in_reserved(
                            final(self).map.reserved@,
                            a,
                            b,
                        )
                    &&& crate::post_processing::spec_room_fits(
                        final(self).start_pos,
                        6,
                        final(self).map.width as int,
                        final(self).map.height as int,
                    )
                    &&& crate::post_processing::spec_room_fits(
                        final(self).walker.pos,
                        4,
                        final(self).map.width as int,
                        final(self).map.height as int,
                    )
                    &&& exists|
                        m0: MapGrid,
                        m1: MapGrid,
                        m2: MapGrid,
                        m3: MapGrid,
                        m4: MapGrid,
                        m5: MapGrid,
                    |
                        #[trigger] crate::post_processing::spec_fix_rel(m0, m1)
                            && #[trigger] crate::post_processing::spec_room_rel(
                            m1,
                            m2,
                            final(self).start_pos,
                            6,
                            3,
                            Some(Tile::Start),
                        ) && #[trigger] crate::post_processing::spec_room_rel(
                            m2,
                            m3,
                            final(self).walker.pos,
                            4,
                            3,
                            Some(Tile::Finish),
                        ) && #[trigger] crate::post_processing::spec_blob_diff(m3, m4) && (old(self).params.min_freeze_size == 0 ==> m4.tiles@ == m3.tiles@)
                            && crate::post_processing::spec_fill_rel(
                            m4,
                            m5,
                            (if old(self).params.max_distance_sqr < crate::dt::DT_FAR {
                                old(self).params.max_distance_sqr
                            } else {
                                (crate::dt::DT_FAR - 1) as u64
                            }) as int,
                        ) && #[trigger] crate::post_processing::spec_skip_diff(m5, final(self).map)
                },
                Err(e) => {
                    &&& (e == GenError::OutOfBounds || e == GenError::RoomOutOfBounds)
                    &&& (e == GenError::RoomOutOfBounds ==> !(
                    crate::post_processing::spec_room_fits(
                        final(self).start_pos,
                        6,
                        final(self).map.width as int,
                        final(self).map.height as int,
                    ) && crate::post_processing::spec_room_fits(
                        final(self).walker.pos,
                        4,
                        final(self).map.width as int,
                        final(self).map.height as int,
                    )))
                },
            },
    {
        let mut i: usize = 0;
        while i < max_steps
            invariant
                i <= max_steps,
                self.wf(),
                self.map.width == old(self).map.width,
                self.map.height == old(self).map.height,
                old(self).walker.spec_same_config(self.walker),
                self.params == old(self).params,
            decreases max_steps - i,
        {
            if self.walker.finished {
                break ;
            }
            let (pmin, pmax) = self.params.platform_distance_bounds;
            match self.walker.step(&mut self.map, pmin, pmax) {
                Ok(()) => {},
                Err(e) => {
                    proof {
                        assert(e == GenError::OutOfBounds);
                    }
                    return Err(e);
                },
            }
            i = i + 1;
        }
        // Post-processing, in its fixed order.
        let ghost m0 = self.map;
        crate::post_processing::fix_edge_bugs(&mut self.map);
        let ghost m1 = self.map;
        match crate::post_processing::generate_room(
            &mut self.map,
            self.start_pos,
            6,
            3,
            Some(Tile::Start),
        ) {
            Ok(()) => {},
            Err(e) => {
                return Err(e);
            },
        }
        let ghost m2 = self.map;
        match crate::post_processing::generate_room(
            &mut self.map,
            self.walker.pos,
            4,
            3,
            Some(Tile::Finish),
        ) {
            Ok(()) => {},
            Err(e) => {
                return Err(e);
            },
        }
        let ghost m3 = self.map;
        if self.params.min_freeze_size > 0 {
            crate::post_processing::remove_freeze_blobs(&mut self.map, self.params.min_freeze_size);
        }
        let ghost m4 = self.map;
        let maxd = if self.params.max_distance_sqr < crate::dt::DT_FAR {
            self.params.max_distance_sqr
        } else {
            crate::dt::DT_FAR - 1
        };
        let ghost pre_fill = self.map;
        crate::post_processing::fill_open_areas(&mut self.map, maxd);
        let ghost post_fill = self.map;
        let (skip_min, skip_max) = self.params.skip_length_bounds;
        let skip_min2 = if skip_min < 1 {
            1
        } else {
            skip_min
        };
        let skip_max2 = if skip_max > 10000 {
            10000
        } else {
            skip_max
        };
        let spacing = if self.params.skip_min_spacing_sqr > 0x3FFF_FFFF_FFFF_FFFFu64 {
            0x3FFF_FFFF_FFFF_FFFFu64
        } else {
            self.params.skip_min_spacing_sqr
        };
        let n = crate::post_processing::generate_all_skips(
            &mut self.map,
            skip_min2,
            skip_max2,
            spacing,
        );
        self.skips_placed = n;
        proof {
            assert(crate::post_processing::spec_fix_rel(m0, m1));
            assert(crate::post_processing::spec_room_rel(
                m1,
                m2,
                self.start_pos,
                6,
                3,
                Some(Tile::Start),
            ));
            assert(crate::post_processing::spec_room_rel(
                m2,
                m3,
                self.walker.pos,
                4,
                3,
                Some(Tile::Finish),
            ));
            assert(crate::post_processing::spec_blob_diff(m3, m4));
            assert(crate::post_processing::spec_fill_rel(m4, post_fill, maxd as int));
            assert(crate::post_processing::spec_skip_diff(post_fill, self.map));
            assert forall|a: int, b: int|
                self.map.spec_in_bounds(a, b) && #[trigger] self.map.spec_tile(a, b)
                    == Tile::EmptyReserved implies spec_in_reserved(self.map.reserved@, a, b) by {
                assert(post_fill.spec_in_bounds(a, b));
                assert(self.map.spec_tile(a, b) == post_fill.spec_tile(a, b) || (
                crate::tile::spec_is_solid(post_fill.spec_tile(a, b)) && (self.map.spec_tile(a, b)
                    == Tile::Empty || self.map.spec_tile(a, b) == Tile::Freeze)));
                assert(self.map.spec_tile(a, b) == post_fill.spec_tile(a, b));
                assert(post_fill.spec_tile(a, b) == crate::post_processing::spec_fill_tile(
                    pre_fill,
                    maxd as int,
                    a,
                    b,
                ));
                assert(spec_in_reserved(pre_fill.reserved@, a, b));
                assert(self.map.reserved@ == pre_fill.reserved@);
            }
        }
        Ok(())
    }

    /// One walker step, letting a mutation loop force its override
    /// first.
    pub fn step_mutated(&mut self, mutations: &mut crate::mutations::MutationLoop) -> (r: Result<
        (),
        GenError,
    >)
        requires
            old(self).wf(),
        ensures
            final(self).wf(),
            final(self).map.width == old(self).map.width,
            final(self).map.height == old(self).map.height,
            old(self).walker.spec_same_config(final(self).walker),
            old(self).walker.finished ==> r == Err::<(), GenError>(GenError::WalkerFinished)
                && final(self).map == old(self).map,
            r is Ok ==> !old(self).walker.finished,
    {
        mutations.advance(&mut self.walker);
        let (pmin, pmax) = self.params.platform_distance_bounds;
        let r = self.walker.step(&mut self.map, pmin, pmax);
        r
    }

    /// Reset the map to its initial fill; the walker keeps its stream
    /// state.
    pub fn clear(&mut self)
        requires
            old(self).wf(),
        ensures
            final(self).wf(),
            final(self).map.width == old(self).map.width,
            final(self).map.height == old(self).map.height,
            forall|x: int, y: int|
                final(self).map.spec_in_bounds(x, y) ==> final(self).map.spec_tile(x, y) == old(self).map.fill_tile,
            final(self).walker == old(self).walker,
    {
        self.map.clear();
    }

    /// Reset the map and re-seed the walker for a fresh run.
    pub fn restart(&mut self, seed: Seed)
        requires
            old(self).wf(),
        ensures
            final(self).wf(),
            final(self).map.width == old(self).map.width,
            final(self).map.height == old(self).map.height,
            final(self).walker.rng.seed == seed,
            final(self).walker.rng.count@ == 0,
            final(self).walker.steps == 0,
            !final(self).walker.finished,
            forall|x: int, y: int|
                final(self).map.spec_in_bounds(x, y) ==> final(self).map.spec_tile(x, y) == old(self).map.fill_tile,
    {
        self.map.clear();
        self.walker.reset(seed);
        self.start_pos = self.walker.pos;
        proof {
            assert(self.walker.waypoints@[0].x < MAX_MAP_DIM);
        }
    }
}

} // verus!
