//! The stochastic agent that carves the map: it navigates from waypoint
//! to waypoint, choosing a direction each step by sampling over the
//! distance ranking of the four moves, and stamps an outer freeze kernel
//! and an inner empty kernel around its position.

use vstd::prelude::*;

use crate::config::{PulseParams, WalkerParams};
use crate::dist::RandomDist;
use crate::error::GenError;
use crate::kernel::Kernel;
use crate::map_grid::{MapGrid, MAX_MAP_DIM};
use crate::position::{spec_sq_dist, Direction, Position};
use crate::random::{Random, Seed, PROB_SCALE};
use crate::tile::{Overwrite, Tile};

verus! {

/// The largest accepted inner kernel size.
pub const INNER_SIZE_CAP: usize = 64;

/// The largest accepted outer kernel margin.
pub const OUTER_MARGIN_CAP: usize = 32;

/// The cap applied to fade lengths, waypoint thresholds and pulse delays.
pub const STEP_PARAM_CAP: usize = 1_000_000;

/// Waypoint coordinates are fixed-point fractions of this scale.
pub const WAYPOINT_SCALE: u32 = 1000;

/// Bound waypoints keep this margin to the map edge, so that rooms fit
/// around them.
pub const WAYPOINT_MARGIN: usize = 10;

/// An ordered list of normalized waypoints, each coordinate a
/// fixed-point fraction of `WAYPOINT_SCALE`.
#[derive(Clone, Debug)]
pub struct NormalWaypoints {
    pub waypoints: Vec<(u32, u32)>,
}

/// The grid coordinate a normalized coordinate maps to on an axis of
/// `dim` cells, clamped to the waypoint margin.
pub open spec fn spec_bound_coord(f: int, dim: int) -> int {
    let v = f * (dim - 1) / (WAYPOINT_SCALE as int);
    if v < WAYPOINT_MARGIN {
        WAYPOINT_MARGIN as int
    } else if v > dim - 1 - WAYPOINT_MARGIN {
        dim - 1 - WAYPOINT_MARGIN
    } else {
        v
    }
}

impl NormalWaypoints {
    /// Every coordinate stays inside the unit square.
    pub open spec fn wf(self) -> bool {
        &&& self.waypoints@.len() > 0
        &&& forall|i: int|
            0 <= i < self.waypoints@.len() ==> (#[trigger] self.waypoints@[i]).0 <= WAYPOINT_SCALE
                && self.waypoints@[i].1 <= WAYPOINT_SCALE
    }

    /// A waypoint list from its normalized coordinates.
    pub fn from_coords(waypoints: Vec<(u32, u32)>) -> (r: Self)
        ensures
            r.waypoints@ == waypoints@,
    {
        NormalWaypoints { waypoints }
    }

    /// Project the normalized waypoints onto a grid, keeping the margin.
    pub fn bind(&self, width: usize, height: usize) -> (r: Vec<Position>)
        requires
            self.wf(),
            2 * WAYPOINT_MARGIN < width <= MAX_MAP_DIM,
            2 * WAYPOINT_MARGIN < height <= MAX_MAP_DIM,
        ensures
            r@.len() == self.waypoints@.len(),
            forall|i: int|
                0 <= i < r@.len() ==> (#[trigger] r@[i]).x as int == spec_bound_coord(
                    self.waypoints@[i].0 as int,
                    width as int,
                ) && r@[i].y as int == spec_bound_coord(self.waypoints@[i].1 as int, height as int),
            forall|i: int|
                0 <= i < r@.len() ==> WAYPOINT_MARGIN <= (#[trigger] r@[i]).x < width
                    - WAYPOINT_MARGIN && WAYPOINT_MARGIN <= r@[i].y < height - WAYPOINT_MARGIN,
    {
        let n = self.waypoints.len();
        let mut out: Vec<Position> = Vec::new();
        let mut i: usize = 0;
        while i < n
            invariant
                i <= n,
                n == self.waypoints@.len(),
                self.wf(),
                2 * WAYPOINT_MARGIN < width <= MAX_MAP_DIM,
                2 * WAYPOINT_MARGIN < height <= MAX_MAP_DIM,
                out@.len() == i,
                forall|k: int|
                    0 <= k < i ==> (#[trigger] out@[k]).x as int == spec_bound_coord(
                        self.waypoints@[k].0 as int,
                        width as int,
                    ) && out@[k].y as int == spec_bound_coord(
                        self.waypoints@[k].1 as int,
                        height as int,
                    ),
                forall|k: int|
                    0 <= k < i ==> WAYPOINT_MARGIN <= (#[trigger] out@[k]).x < width
                        - WAYPOINT_MARGIN && WAYPOINT_MARGIN <= out@[k].y < height
                        - WAYPOINT_MARGIN,
            decreases n - i,
        {
            let (fx, fy) = self.waypoints[i];
            let x = bound_coord(fx, width);
            let y = bound_coord(fy, height);
            out.push(Position::new(x, y));
            i = i + 1;
        }
        out
    }
}

/// Project one normalized coordinate onto an axis, keeping the margin.
fn bound_coord(f: u32, dim: usize) -> (r: usize)
    requires
        f <= WAYPOINT_SCALE,
        2 * WAYPOINT_MARGIN < dim <= MAX_MAP_DIM,
    ensures
        r as int == spec_bound_coord(f as int, dim as int),
        WAYPOINT_MARGIN <= r < dim - WAYPOINT_MARGIN,
{
    proof {
        assert((f as int) * ((dim - 1) as int) <= 10_000_000) by (nonlinear_arith)
            requires
                f <= 1000,
                dim <= 10000,
                1 <= dim,
        ;
        crate::dist::lemma_mul_div_le(f as int, (dim - 1) as int, WAYPOINT_SCALE as int);
    }
    let prod: u64 = (f as u64) * ((dim - 1) as u64);
    let v: u64 = prod / (WAYPOINT_SCALE as u64);
    let vv: usize = v as usize;
    if vv < WAYPOINT_MARGIN {
        WAYPOINT_MARGIN
    } else if vv > dim - 1 - WAYPOINT_MARGIN {
        dim - 1 - WAYPOINT_MARGIN
    } else {
        vv
    }
}

/// A direction and waypoint override, as mutation passes force them.
#[derive(Clone, Copy, Debug, PartialEq, Eq, Structural)]
pub struct WalkerState {
    /// Direction of movement.
    pub direction: Direction,
    /// Current waypoint's index.
    pub waypoint: usize,
}

/// The stochastic carving agent.
pub struct Walker {
    pub pos: Position,
    pub steps: usize,
    pub inner_kernel: Kernel,
    pub outer_kernel: Kernel,
    pub goal_index: usize,
    pub finished: bool,
    pub steps_since_platform: usize,
    pub last_shift: Option<Direction>,
    pub pulse_counter: usize,
    pub rng: Random,
    pub waypoints: Vec<Position>,
    pub waypoint_reached_dist: usize,
    pub inner_size_mut_prob: u32,
    pub outer_size_mut_prob: u32,
    pub inner_rad_mut_prob: u32,
    pub outer_rad_mut_prob: u32,
    pub momentum_prob: u32,
    pub shift_dist: RandomDist<usize>,
    pub inner_size_dist: RandomDist<usize>,
    pub outer_margin_dist: RandomDist<usize>,
    pub circ_dist: RandomDist<u32>,
    pub pulse: Option<PulseParams>,
    pub fade_steps: usize,
    pub fade_max_size: usize,
    pub fade_min_size: usize,
    pub preferred_state: WalkerState,
    pub next_state: Option<WalkerState>,
}

/// The number of stream words one kernel mutation consumes: none during
/// the fade ramp, and exactly twelve afterwards (four three-word slots),
/// whichever probabilistic branches fire.
pub open spec fn spec_mutation_draws(steps: int, fade_steps: int) -> int {
    if fade_steps > 0 && steps <= fade_steps {
        0
    } else {
        12
    }
}

/// The kernel size the fade ramp prescribes after `steps` steps: the
/// floor of `fmax + (fmin - fmax) * steps / fade_steps`, written over
/// non-negative integers as `fmax` minus the rounded-up decrement.
pub open spec fn spec_fade_size(steps: int, fade_steps: int, fmax: int, fmin: int) -> int {
    fmax - (steps * (fmax - fmin) + fade_steps - 1) / fade_steps
}

impl Walker {
    /// The structural invariant of the walker.
    pub open spec fn wf(self) -> bool {
        &&& self.rng.wf()
        &&& self.inner_kernel.wf()
        &&& self.outer_kernel.wf()
        &&& self.inner_kernel.size <= INNER_SIZE_CAP
        &&& self.outer_kernel.size <= INNER_SIZE_CAP + OUTER_MARGIN_CAP
        &&& self.shift_dist.wf()
        &&& self.shift_dist.config.values@.len() == 4
        &&& self.inner_size_dist.wf()
        &&& self.outer_margin_dist.wf()
        &&& self.circ_dist.wf()
        &&& self.waypoints@.len() > 0
        &&& self.goal_index <= self.waypoints@.len()
        &&& (self.finished <==> self.goal_index == self.waypoints@.len())
        &&& forall|i: int|
            0 <= i < self.waypoints@.len() ==> (#[trigger] self.waypoints@[i]).x < MAX_MAP_DIM
                && self.waypoints@[i].y < MAX_MAP_DIM
        &&& self.pos.x < MAX_MAP_DIM && self.pos.y < MAX_MAP_DIM
        &&& self.waypoint_reached_dist <= STEP_PARAM_CAP
        &&& self.fade_steps <= STEP_PARAM_CAP
        &&& 1 <= self.fade_min_size <= self.fade_max_size <= INNER_SIZE_CAP
        &&& (self.pulse is Some ==> self.pulse.unwrap().straight_delay <= STEP_PARAM_CAP
            && self.pulse_counter <= self.pulse.unwrap().straight_delay + 1)
    }

    /// The configuration and waypoint list are unchanged.
    pub open spec fn spec_same_config(self, other: Walker) -> bool {
        &&& other.waypoints@ == self.waypoints@
        &&& other.waypoint_reached_dist == self.waypoint_reached_dist
        &&& other.inner_size_mut_prob == self.inner_size_mut_prob
        &&& other.outer_size_mut_prob == self.outer_size_mut_prob
        &&& other.inner_rad_mut_prob == self.inner_rad_mut_prob
        &&& other.outer_rad_mut_prob == self.outer_rad_mut_prob
        &&& other.momentum_prob == self.momentum_prob
        &&& other.shift_dist == self.shift_dist
        &&& other.inner_size_dist == self.inner_size_dist
        &&& other.outer_margin_dist == self.outer_margin_dist
        &&& other.circ_dist == self.circ_dist
        &&& other.pulse == self.pulse
        &&& other.fade_steps == self.fade_steps
        &&& other.fade_max_size == self.fade_max_size
        &&& other.fade_min_size == self.fade_min_size
        &&& other.rng.seed == self.rng.seed
    }

    /// Build a walker from its parameter bundle, bound waypoints and a
    /// seed.  An empty waypoint list fails with `NoGoal`; a shift-weight
    /// table that does not cover exactly the four direction ranks, or
    /// any unusable size or circularity table, fails with
    /// `EmptyDistribution`.
    pub fn new(
        params: &WalkerParams,
        waypoints: Vec<Position>,
        seed: Seed,
        waypoint_reached_dist: usize,
    ) -> (r: Result<Walker, GenError>)
        requires
            params.shift_weights.values@.len() <= PROB_SCALE as int,
            params.inner_size_probs.values@.len() <= PROB_SCALE as int,
            params.outer_margin_probs.values@.len() <= PROB_SCALE as int,
            params.circ_probs.values@.len() <= PROB_SCALE as int,
            forall|i: int|
                0 <= i < waypoints@.len() ==> (#[trigger] waypoints@[i]).x < MAX_MAP_DIM
                    && waypoints@[i].y < MAX_MAP_DIM,
        ensures
            waypoints@.len() == 0 <==> r == Err::<Walker, GenError>(GenError::NoGoal),
            (waypoints@.len() > 0 && (params.shift_weights.values@.len() != 4
                || crate::dist::spec_dist_unusable(params.shift_weights.values@)
                || crate::dist::spec_dist_unusable(params.inner_size_probs.values@)
                || crate::dist::spec_dist_unusable(params.outer_margin_probs.values@)
                || crate::dist::spec_dist_unusable(params.circ_probs.values@))) <==> r == Err::<
                Walker,
                GenError,
            >(GenError::EmptyDistribution),
            match r {
                Ok(wk) => {
                    &&& wk.wf()
                    &&& waypoints@.len() > 0
                    &&& wk.waypoints@ == waypoints@
                    &&& wk.pos == waypoints@[0]
                    &&& wk.steps == 0
                    &&& wk.goal_index == 0
                    &&& !wk.finished
                    &&& wk.last_shift is None
                    &&& wk.next_state is None
                    &&& wk.pulse_counter == 0
                    &&& wk.steps_since_platform == 0
                    &&& wk.rng.seed == seed
                    &&& wk.rng.count@ == 0
                    &&& wk.inner_size_mut_prob == params.inner_size_mut_prob
                    &&& wk.outer_size_mut_prob == params.outer_size_mut_prob
                    &&& wk.inner_rad_mut_prob == params.inner_rad_mut_prob
                    &&& wk.outer_rad_mut_prob == params.outer_rad_mut_prob
                    &&& wk.momentum_prob == params.momentum_prob
                    &&& wk.fade_max_size as int == spec_clamp(
                        params.fade_max_size as int,
                        1,
                        INNER_SIZE_CAP as int,
                    )
                    &&& wk.fade_min_size as int == spec_clamp(
                        params.fade_min_size as int,
                        1,
                        wk.fade_max_size as int,
                    )
                    &&& wk.fade_steps as int == spec_clamp(
                        params.fade_steps as int,
                        0,
                        STEP_PARAM_CAP as int,
                    )
                    &&& wk.waypoint_reached_dist as int == spec_clamp(
                        waypoint_reached_dist as int,
                        0,
                        STEP_PARAM_CAP as int,
                    )
                    &&& wk.inner_kernel.size == wk.fade_max_size
                    &&& wk.inner_kernel.circularity == 0 || wk.fade_max_size <= 3
                    &&& wk.outer_kernel.size == wk.fade_max_size + 2
                    &&& (wk.pulse == (match params.pulse {
                        Some(pp) => Some(
                            PulseParams {
                                straight_delay: spec_clamp(
                                    pp.straight_delay as int,
                                    0,
                                    STEP_PARAM_CAP as int,
                                ) as usize,
                                corner_delay: spec_clamp(
                                    pp.corner_delay as int,
                                    0,
                                    STEP_PARAM_CAP as int,
                                ) as usize,
                                max_kernel_size: pp.max_kernel_size,
                            },
                        ),
                        None => None,
                    }))
                    &&& wk.shift_dist.config.values@.len() == 4
                    &&& forall|i: int|
                        0 <= i < 4 ==> (#[trigger] wk.shift_dist.config.values@[i]).1
                            == params.shift_weights.values@[i].1
                            && wk.shift_dist.config.values@[i].0 as int
                            == crate::dist::spec_normalized_weight(params.shift_weights.values@, i)
                    &&& wk.inner_size_dist.config.values@.len()
                        == params.inner_size_probs.values@.len()
                    &&& forall|i: int|
                        0 <= i < params.inner_size_probs.values@.len() ==> (
                        #[trigger] wk.inner_size_dist.config.values@[i]).1
                            == params.inner_size_probs.values@[i].1
                    &&& wk.outer_margin_dist.config.values@.len()
                        == params.outer_margin_probs.values@.len()
                    &&& forall|i: int|
                        0 <= i < params.outer_margin_probs.values@.len() ==> (
                        #[trigger] wk.outer_margin_dist.config.values@[i]).1
                            == params.outer_margin_probs.values@[i].1
                    &&& wk.circ_dist.config.values@.len() == params.circ_probs.values@.len()
                    &&& forall|i: int|
                        0 <= i < params.circ_probs.values@.len() ==> (
                        #[trigger] wk.circ_dist.config.values@[i]).1
                            == params.circ_probs.values@[i].1
                },
                Err(e) => e == GenError::NoGoal || e == GenError::EmptyDistribution,
            },
    {
        if waypoints.len() == 0 {
            return Err(GenError::NoGoal);
        }
        if params.shift_weights.values.len() != 4 {
            return Err(GenError::EmptyDistribution);
        }
        let shift_dist = match RandomDist::from_config(params.shift_weights.duplicate()) {
            Ok(d) => d,
            Err(e) => {
                return Err(e);
            },
        };
        let inner_size_dist = match RandomDist::from_config(params.inner_size_probs.duplicate()) {
            Ok(d) => d,
            Err(e) => {
                return Err(e);
            },
        };
        let outer_margin_dist = match RandomDist::from_config(params.outer_margin_probs.duplicate()) {
            Ok(d) => d,
            Err(e) => {
                return Err(e);
            },
        };
        let circ_dist = match RandomDist::from_config(params.circ_probs.duplicate()) {
            Ok(d) => d,
            Err(e) => {
                return Err(e);
            },
        };
        let fmax = clamp_usize(params.fade_max_size, 1, INNER_SIZE_CAP);
        let fmin = clamp_usize(params.fade_min_size, 1, fmax);
        let fade_steps = clamp_usize(params.fade_steps, 0, STEP_PARAM_CAP);
        let wrd = clamp_usize(waypoint_reached_dist, 0, STEP_PARAM_CAP);
        let pulse = match params.pulse {
            Some(pp) => Some(
                PulseParams {
                    straight_delay: clamp_usize(pp.straight_delay, 0, STEP_PARAM_CAP),
                    corner_delay: clamp_usize(pp.corner_delay, 0, STEP_PARAM_CAP),
                    max_kernel_size: pp.max_kernel_size,
                },
            ),
            None => None,
        };
        let pos = waypoints[0];
        Ok(
            Walker {
                pos,
                steps: 0,
                inner_kernel: Kernel::new(fmax, 0),
                outer_kernel: Kernel::new(fmax + 2, 0),
                goal_index: 0,
                finished: false,
                steps_since_platform: 0,
                last_shift: None,
                pulse_counter: 0,
                rng: Random::new(seed),
                waypoints,
                waypoint_reached_dist: wrd,
                inner_size_mut_prob: params.inner_size_mut_prob,
                outer_size_mut_prob: params.outer_size_mut_prob,
                inner_rad_mut_prob: params.inner_rad_mut_prob,
                outer_rad_mut_prob: params.outer_rad_mut_prob,
                momentum_prob: params.momentum_prob,
                shift_dist,
                inner_size_dist,
                outer_margin_dist,
                circ_dist,
                pulse,
                fade_steps,
                fade_max_size: fmax,
                fade_min_size: fmin,
                preferred_state: WalkerState { direction: Direction::Up, waypoint: 0 },
                next_state: None,
            },
        )
    }

    /// Reset the walker to the start of a fresh run from `seed`: back to
    /// the first waypoint, the fade-sized kernels and a fresh stream.
    pub fn reset(&mut self, seed: Seed)
        requires
            old(self).wf(),
        ensures
            final(self).wf(),
            final(self).waypoints@ == old(self).waypoints@,
            final(self).pos == old(self).waypoints@[0],
            final(self).steps == 0,
            final(self).goal_index == 0,
            !final(self).finished,
            final(self).rng.seed == seed,
            final(self).rng.count@ == 0,
    {
        self.pos = self.waypoints[0];
        self.steps = 0;
        self.inner_kernel = Kernel::new(self.fade_max_size, 0);
        self.outer_kernel = Kernel::new(self.fade_max_size + 2, 0);
        self.goal_index = 0;
        self.finished = false;
        self.steps_since_platform = 0;
        self.last_shift = None;
        self.pulse_counter = 0;
        self.rng = Random::new(seed);
        self.preferred_state = WalkerState { direction: Direction::Up, waypoint: 0 };
        self.next_state = None;
    }

    /// The number of steps taken so far.
    pub fn get_current_step(&self) -> (r: usize)
        ensures
            r == self.steps,
    {
        self.steps
    }

    /// Force the direction of the next step.
    pub fn set_next_direction(&mut self, direction: Direction)
        ensures
            final(self).next_state is Some,
            final(self).next_state.unwrap().direction == direction,
            final(self).next_state.unwrap().waypoint == (match old(self).next_state {
                Some(st) => st.waypoint,
                None => 0usize,
            }),
            *final(self) == (Walker { next_state: final(self).next_state, ..*old(self) }),
    {
        match self.next_state {
            Some(st) => {
                self.next_state = Some(WalkerState { direction, waypoint: st.waypoint });
            },
            None => {
                self.next_state = Some(WalkerState { direction, waypoint: 0 });
            },
        }
    }

    /// Force the waypoint of the next step.
    pub fn set_next_waypoint(&mut self, waypoint: usize)
        ensures
            final(self).next_state is Some,
            final(self).next_state.unwrap().waypoint == waypoint,
            final(self).next_state.unwrap().direction == (match old(self).next_state {
                Some(st) => st.direction,
                None => Direction::Up,
            }),
            *final(self) == (Walker { next_state: final(self).next_state, ..*old(self) }),
    {
        match self.next_state {
            Some(st) => {
                self.next_state = Some(WalkerState { direction: st.direction, waypoint });
            },
            None => {
                self.next_state = Some(WalkerState { direction: Direction::Up, waypoint });
            },
        }
    }

    /// The state the walker would prefer next: the greedy direction of
    /// the last step and the active waypoint.
    pub fn preferred_state(&self) -> (r: WalkerState)
        ensures
            r == self.preferred_state,
    {
        self.preferred_state
    }

    /// Mutate both kernels before a step.  During the fade ramp the
    /// sizes follow the ramp and no stream word is drawn; afterwards
    /// four three-word sampling slots run, drawing or skipping exactly
    /// the same number of words whichever branches fire.
    pub fn mutate_kernel(&mut self)
        requires
            old(self).wf(),
        ensures
            final(self).wf(),
            old(self).spec_same_config(*final(self)),
            final(self).pos == old(self).pos,
            final(self).steps == old(self).steps,
            final(self).goal_index == old(self).goal_index,
            final(self).finished == old(self).finished,
            final(self).last_shift == old(self).last_shift,
            final(self).pulse_counter == old(self).pulse_counter,
            final(self).steps_since_platform == old(self).steps_since_platform,
            final(self).next_state == old(self).next_state,
            final(self).rng.count@ == old(self).rng.count@ + spec_mutation_draws(
                old(self).steps as int,
                old(self).fade_steps as int,
            ),
            (old(self).fade_steps > 0 && old(self).steps <= old(self).fade_steps) ==> {
                &&& final(self).inner_kernel.size as int == spec_fade_size(
                    old(self).steps as int,
                    old(self).fade_steps as int,
                    old(self).fade_max_size as int,
                    old(self).fade_min_size as int,
                )
                &&& final(self).inner_kernel.circularity == 0
                &&& final(self).outer_kernel.size == final(self).inner_kernel.size + 2
                &&& final(self).outer_kernel.circularity == 0
            },
            !(old(self).fade_steps > 0 && old(self).steps <= old(self).fade_steps) ==> ({
                let c = old(self).rng.count@;
                let seed = old(self).rng.seed;
                let f0 = crate::random::spec_gen_bool(
                    crate::random::spec_stream(seed, c),
                    old(self).inner_size_mut_prob,
                );
                let size1 = if f0 {
                    spec_clamp(
                        old(self).inner_size_dist.config.values@[crate::dist::spec_sample_index(
                            old(self).inner_size_dist,
                            crate::random::spec_stream(seed, c + 1),
                            crate::random::spec_stream(seed, c + 2),
                        )].1 as int,
                        1,
                        INNER_SIZE_CAP as int,
                    )
                } else {
                    old(self).inner_kernel.size as int
                };
                let f1 = crate::random::spec_gen_bool(
                    crate::random::spec_stream(seed, c + 3),
                    old(self).outer_size_mut_prob,
                );
                let margin1 = if f1 {
                    spec_clamp(
                        old(self).outer_margin_dist.config.values@[crate::dist::spec_sample_index(
                            old(self).outer_margin_dist,
                            crate::random::spec_stream(seed, c + 4),
                            crate::random::spec_stream(seed, c + 5),
                        )].1 as int,
                        0,
                        OUTER_MARGIN_CAP as int,
                    )
                } else if old(self).outer_kernel.size >= old(self).inner_kernel.size {
                    old(self).outer_kernel.size - old(self).inner_kernel.size
                } else {
                    0int
                };
                let f2 = crate::random::spec_gen_bool(
                    crate::random::spec_stream(seed, c + 6),
                    old(self).inner_rad_mut_prob,
                );
                let circ_i = if f2 {
                    spec_clamp(
                        old(self).circ_dist.config.values@[crate::dist::spec_sample_index(
                            old(self).circ_dist,
                            crate::random::spec_stream(seed, c + 7),
                            crate::random::spec_stream(seed, c + 8),
                        )].1 as int,
                        0,
                        crate::kernel::CIRC_SCALE as int,
                    )
                } else {
                    old(self).inner_kernel.circularity as int
                };
                let f3 = crate::random::spec_gen_bool(
                    crate::random::spec_stream(seed, c + 9),
                    old(self).outer_rad_mut_prob,
                );
                let circ_o = if f3 {
                    spec_clamp(
                        old(self).circ_dist.config.values@[crate::dist::spec_sample_index(
                            old(self).circ_dist,
                            crate::random::spec_stream(seed, c + 10),
                            crate::random::spec_stream(seed, c + 11),
                        )].1 as int,
                        0,
                        crate::kernel::CIRC_SCALE as int,
                    )
                } else {
                    old(self).outer_kernel.circularity as int
                };
                let margin2 = spec_clamp(margin1, 0, OUTER_MARGIN_CAP as int);
                if f0 || f1 || f2 || f3 {
                    &&& final(self).inner_kernel.size as int == size1
                    &&& final(self).inner_kernel.circularity as int == (if size1 <= 3 {
                        0int
                    } else {
                        circ_i
                    })
                    &&& final(self).outer_kernel.size as int == size1 + margin2
                    &&& final(self).outer_kernel.circularity as int == (if size1 + margin2 <= 3 {
                        0int
                    } else {
                        circ_o
                    })
                } else {
                    &&& final(self).inner_kernel == old(self).inner_kernel
                    &&& final(self).outer_kernel == old(self).outer_kernel
                }
            }),
    {
        if self.fade_steps > 0 && self.steps <= self.fade_steps {
            let d = self.fade_max_size - self.fade_min_size;
            proof {
                assert((self.steps as int) * (d as int) + self.fade_steps - 1 <= 65_000_000 && (
                (self.steps as int) * (d as int) + self.fade_steps - 1) / (self.fade_steps as int)
                    <= d) by (nonlinear_arith)
                    requires
                        self.steps <= self.fade_steps,
                        1 <= self.fade_steps <= 1_000_000,
                        0 <= d <= 64,
                ;
            }
            let dec = (self.steps * d + self.fade_steps - 1) / self.fade_steps;
            let size = self.fade_max_size - dec;
            self.inner_kernel = Kernel::new(size, 0);
            self.outer_kernel = Kernel::new(size + 2, 0);
        } else {
            let mut inner_size = self.inner_kernel.size;
            let mut margin = if self.outer_kernel.size >= self.inner_kernel.size {
                self.outer_kernel.size - self.inner_kernel.size
            } else {
                0
            };
            let mut inner_circ = self.inner_kernel.circularity;
            let mut outer_circ = self.outer_kernel.circularity;
            let mut any = false;
            if self.rng.gen_bool(self.inner_size_mut_prob) {
                let v = self.rng.sample_value(&self.inner_size_dist);
                inner_size = clamp_usize(v, 1, INNER_SIZE_CAP);
                any = true;
            } else {
                self.rng.skip_n(2);
            }
            if self.rng.gen_bool(self.outer_size_mut_prob) {
                let v = self.rng.sample_value(&self.outer_margin_dist);
                margin = clamp_usize(v, 0, OUTER_MARGIN_CAP);
                any = true;
            } else {
                self.rng.skip_n(2);
            }
            if self.rng.gen_bool(self.inner_rad_mut_prob) {
                let v = self.rng.sample_value(&self.circ_dist);
                inner_circ = clamp_u32(v, crate::kernel::CIRC_SCALE);
                any = true;
            } else {
                self.rng.skip_n(2);
            }
            if self.rng.gen_bool(self.outer_rad_mut_prob) {
                let v = self.rng.sample_value(&self.circ_dist);
                outer_circ = clamp_u32(v, crate::kernel::CIRC_SCALE);
                any = true;
            } else {
                self.rng.skip_n(2);
            }
            let margin2 = clamp_usize(margin, 0, OUTER_MARGIN_CAP);
            if any {
                self.inner_kernel = Kernel::new(inner_size, inner_circ);
                self.outer_kernel = Kernel::new(inner_size + margin2, outer_circ);
            }
        }
    }
}

/// Whether the goal counts as reached from `pos`.
pub open spec fn spec_goal_reached(pos: Position, goal: Position, wrd: int) -> bool {
    spec_sq_dist(pos, goal) <= wrd * wrd
}

/// The sentinel key of a move that leaves the grid: worse than any
/// squared distance.
pub const SHIFT_KEY_FAR: u64 = 0xFFFF_FFFF_FFFF_FFFF;

/// The ranking key of one move: the squared distance from the shifted
/// position to the goal, or the sentinel when the move leaves the grid.
pub open spec fn spec_shift_key(p: Position, goal: Position, w: int, h: int, d: Direction) -> int {
    let (qx, qy) = crate::position::spec_shifted(p, d);
    if 0 <= qx < w && 0 <= qy < h {
        (qx - goal.x) * (qx - goal.x) + (qy - goal.y) * (qy - goal.y)
    } else {
        SHIFT_KEY_FAR as int
    }
}

/// The strict order of the direction ranking: by key, ties broken by
/// the fixed direction order.
pub open spec fn spec_rank_less(
    p: Position,
    goal: Position,
    w: int,
    h: int,
    a: Direction,
    b: Direction,
) -> bool {
    spec_shift_key(p, goal, w, h, a) < spec_shift_key(p, goal, w, h, b) || (spec_shift_key(
        p,
        goal,
        w,
        h,
        a,
    ) == spec_shift_key(p, goal, w, h, b) && crate::position::spec_dir_index(a)
        < crate::position::spec_dir_index(b))
}

/// The rank of a direction: how many directions order strictly before
/// it.  The ranking is a total order, so this is a bijection onto 0..4.
pub open spec fn spec_rank_of(p: Position, goal: Position, w: int, h: int, d: Direction) -> int {
    (if spec_rank_less(p, goal, w, h, Direction::Up, d) {
        1int
    } else {
        0int
    }) + (if spec_rank_less(p, goal, w, h, Direction::Right, d) {
        1int
    } else {
        0int
    }) + (if spec_rank_less(p, goal, w, h, Direction::Down, d) {
        1int
    } else {
        0int
    }) + (if spec_rank_less(p, goal, w, h, Direction::Left, d) {
        1int
    } else {
        0int
    })
}

/// The direction standing at a given rank of the ranking.
pub open spec fn spec_dir_at_rank(p: Position, goal: Position, w: int, h: int, r: int) -> Direction {
    if spec_rank_of(p, goal, w, h, Direction::Up) == r {
        Direction::Up
    } else if spec_rank_of(p, goal, w, h, Direction::Right) == r {
        Direction::Right
    } else if spec_rank_of(p, goal, w, h, Direction::Down) == r {
        Direction::Down
    } else {
        Direction::Left
    }
}

/// A move that stays on the grid has a key below the sentinel: its
/// squared distance is bounded by the grid dimensions.
pub proof fn lemma_shift_key_bounded(p: Position, goal: Position, w: int, h: int, d: Direction)
    requires
        p.x < w,
        p.y < h,
        w <= MAX_MAP_DIM,
        h <= MAX_MAP_DIM,
        goal.x < MAX_MAP_DIM,
        goal.y < MAX_MAP_DIM,
    ensures
        ({
            let (qx, qy) = crate::position::spec_shifted(p, d);
            0 <= qx < w && 0 <= qy < h
        }) ==> 0 <= spec_shift_key(p, goal, w, h, d) < 400_000_000,
{
    let (qx, qy) = crate::position::spec_shifted(p, d);
    if 0 <= qx < w && 0 <= qy < h {
        assert(0 <= (qx - goal.x) * (qx - goal.x) + (qy - goal.y) * (qy - goal.y) < 400_000_000)
            by (nonlinear_arith)
            requires
                0 <= qx < 10001,
                0 <= qy < 10001,
                0 <= goal.x < 10000,
                0 <= goal.y < 10000,
        ;
    }
}

/// A value clamped into an inclusive range.
pub open spec fn spec_clamp(v: int, lo: int, hi: int) -> int {
    if v < lo {
        lo
    } else if v > hi {
        hi
    } else {
        v
    }
}

/// The waypoint index a step works toward: a pending override wins when
/// it names an existing waypoint.
pub open spec fn spec_effective_goal(wk: Walker) -> int {
    match wk.next_state {
        Some(st) => if st.waypoint < wk.waypoints@.len() {
            st.waypoint as int
        } else {
            wk.goal_index as int
        },
        None => wk.goal_index as int,
    }
}

impl Walker {
    /// How a moving step transforms the walker: the position advances by
    /// one cell in `d`, the direction is recorded, the step counter
    /// grows (saturating), the goal stays the effective one, and the
    /// kernels are stamped as `spec_step_stamps` describes.
    pub open spec fn spec_step_move(
        w0: Walker,
        w1: Walker,
        m0: MapGrid,
        m1: MapGrid,
        d: Direction,
        eg: int,
    ) -> bool {
        &&& (w1.pos.x as int, w1.pos.y as int) == crate::position::spec_shifted(w0.pos, d)
        &&& w1.last_shift == Some(d)
        &&& w1.goal_index == eg
        &&& !w1.finished
        &&& w1.next_state is None
        &&& (w0.steps < usize::MAX ==> w1.steps == w0.steps + 1)
        &&& w1.inner_kernel == w0.inner_kernel
        &&& w1.outer_kernel == w0.outer_kernel
        &&& Walker::spec_step_stamps(w0, w1, m0, m1, d)
    }

    /// The stamps a moving step lays down.  When the pulse fires, an
    /// enlarged freeze kernel and then an enlarged empty kernel are
    /// stamped and the pulse counter resets; otherwise the outer kernel
    /// stamps `Freeze`, the inner kernel stamps `EmptyReserved` inside
    /// the fade window and `Empty` after it, and the pulse counter
    /// advances on straight runs under the size cap.
    pub open spec fn spec_step_stamps(
        w0: Walker,
        w1: Walker,
        m0: MapGrid,
        m1: MapGrid,
        d: Direction,
    ) -> bool {
        let same_dir = w0.last_shift == Some(d);
        let fire = match w0.pulse {
            Some(pp) => (same_dir && w0.pulse_counter > pp.straight_delay) || (!same_dir
                && w0.pulse_counter > pp.corner_delay),
            None => false,
        };
        if fire {
            &&& w1.pulse_counter == 0
            &&& exists|fk: Kernel, ek: Kernel, mid: MapGrid|
                fk.wf() && fk.size == w0.inner_kernel.size + 4 && fk.circularity == 0 && ek.wf()
                    && ek.size == w0.inner_kernel.size + 2 && ek.circularity == 0
                    && #[trigger] crate::map_grid::spec_kernel_stamp_rel(
                    m0,
                    mid,
                    w1.pos,
                    fk,
                    Tile::Freeze,
                    Overwrite::Force,
                ) && #[trigger] crate::map_grid::spec_kernel_stamp_rel(
                    mid,
                    m1,
                    w1.pos,
                    ek,
                    Tile::Empty,
                    Overwrite::Force,
                )
        } else {
            &&& (match w0.pulse {
                Some(pp) => w1.pulse_counter as int == (if same_dir && w0.inner_kernel.size
                    <= pp.max_kernel_size {
                    w0.pulse_counter + 1
                } else {
                    0int
                }),
                None => w1.pulse_counter == w0.pulse_counter,
            })
            &&& exists|mid: MapGrid|
                #[trigger] crate::map_grid::spec_kernel_stamp_rel(
                    m0,
                    mid,
                    w1.pos,
                    w0.outer_kernel,
                    Tile::Freeze,
                    Overwrite::Force,
                ) && crate::map_grid::spec_kernel_stamp_rel(
                    mid,
                    m1,
                    w1.pos,
                    w0.inner_kernel,
                    (if w1.steps < w0.fade_steps {
                        Tile::EmptyReserved
                    } else {
                        Tile::Empty
                    }),
                    Overwrite::Force,
                )
        }
    }

    /// Rank the four moves, sample a rank, and apply momentum: the
    /// decision core of one step.  The result is pinned as a function of
    /// the stream words: the sampled rank selects the direction at that
    /// rank of the distance ranking (`OutOfBounds` when that move leaves
    /// the grid), and one further word may keep the previous direction
    /// when its move stays on the grid.  Also records the greedy
    /// direction as the preferred state.
    #[verifier::rlimit(100)]
    fn sample_direction(&mut self, goal: Position, w: usize, h: usize) -> (r: Result<
        Direction,
        GenError,
    >)
        requires
            old(self).wf(),
            old(self).pos.x < w,
            old(self).pos.y < h,
            w <= MAX_MAP_DIM,
            h <= MAX_MAP_DIM,
            goal.x < MAX_MAP_DIM,
            goal.y < MAX_MAP_DIM,
        ensures
            final(self).wf(),
            old(self).spec_same_config(*final(self)),
            final(self).pos == old(self).pos,
            final(self).steps == old(self).steps,
            final(self).goal_index == old(self).goal_index,
            final(self).finished == old(self).finished,
            final(self).last_shift == old(self).last_shift,
            final(self).pulse_counter == old(self).pulse_counter,
            final(self).next_state == old(self).next_state,
            final(self).inner_kernel == old(self).inner_kernel,
            final(self).outer_kernel == old(self).outer_kernel,
            final(self).preferred_state.direction == spec_dir_at_rank(
                old(self).pos,
                goal,
                w as int,
                h as int,
                0,
            ),
            final(self).preferred_state.waypoint == old(self).goal_index,
            ({
                let c = old(self).rng.count@;
                let seed = old(self).rng.seed;
                let i = crate::dist::spec_sample_index(
                    old(self).shift_dist,
                    crate::random::spec_stream(seed, c),
                    crate::random::spec_stream(seed, c + 1),
                );
                let d0 = spec_dir_at_rank(old(self).pos, goal, w as int, h as int, i);
                &&& (r is Err <==> spec_shift_key(old(self).pos, goal, w as int, h as int, d0)
                    == SHIFT_KEY_FAR)
                &&& (r is Err ==> r == Err::<Direction, GenError>(GenError::OutOfBounds) && final(self).rng.count@ == c + 2)
                &&& (r is Ok ==> {
                    let mom = old(self).last_shift is Some && crate::random::spec_gen_bool(
                        crate::random::spec_stream(seed, c + 2),
                        old(self).momentum_prob,
                    ) && spec_shift_key(
                        old(self).pos,
                        goal,
                        w as int,
                        h as int,
                        old(self).last_shift.unwrap(),
                    ) != SHIFT_KEY_FAR;
                    let d = if mom {
                        old(self).last_shift.unwrap()
                    } else {
                        d0
                    };
                    &&& r == Ok::<Direction, GenError>(d)
                    &&& spec_shift_key(old(self).pos, goal, w as int, h as int, d) != SHIFT_KEY_FAR
                    &&& final(self).rng.count@ == c + 2 + (if old(self).last_shift is Some {
                        1int
                    } else {
                        0int
                    })
                })
            }),
    {
        // Rank the four moves by squared distance to the goal; moves
        // that leave the grid rank last.
        let mut keys: Vec<u64> = Vec::new();
        let mut dirs: Vec<usize> = Vec::new();
        let mut d: usize = 0;
        while d < 4
            invariant
                d <= 4,
                keys@.len() == d,
                dirs@.len() == d,
                self.wf(),
                self.pos.x < w,
                self.pos.y < h,
                w <= MAX_MAP_DIM,
                h <= MAX_MAP_DIM,
                goal.x < MAX_MAP_DIM,
                goal.y < MAX_MAP_DIM,
                forall|k: int| 0 <= k < d ==> #[trigger] dirs@[k] == k,
                forall|k: int|
                    0 <= k < d ==> #[trigger] keys@[k] as int == spec_shift_key(
                        self.pos,
                        goal,
                        w as int,
                        h as int,
                        crate::position::spec_dir_of_index(k),
                    ),
            decreases 4 - d,
        {
            let dd = Direction::from_index(d);
            let key: u64 = match self.pos.shifted(dd, w, h) {
                Ok(p) => p.sq_dist(&goal),
                Err(_) => SHIFT_KEY_FAR,
            };
            proof {
                assert(key as int == spec_shift_key(
                    self.pos,
                    goal,
                    w as int,
                    h as int,
                    crate::position::spec_dir_of_index(d as int),
                ));
            }
            keys.push(key);
            dirs.push(d);
            d = d + 1;
        }
        // Selection sort by key, ties broken by direction index:
        // exactly the `spec_rank_less` order.
        let ghost p0 = self.pos;
        let mut i: usize = 0;
        while i < 4
            invariant
                i <= 4,
                keys@.len() == 4,
                dirs@.len() == 4,
                p0 == self.pos,
                self.pos.x < w,
                self.pos.y < h,
                forall|k: int| 0 <= k < 4 ==> #[trigger] dirs@[k] < 4,
                forall|k1: int, k2: int|
                    0 <= k1 < k2 < 4 ==> #[trigger] dirs@[k1] != #[trigger] dirs@[k2],
                forall|k: int|
                    0 <= k < 4 ==> #[trigger] keys@[k] as int == spec_shift_key(
                        p0,
                        goal,
                        w as int,
                        h as int,
                        crate::position::spec_dir_of_index(dirs@[k] as int),
                    ),
                forall|k1: int, k2: int|
                    0 <= k1 < i && k1 < k2 < 4 ==> spec_rank_less(
                        p0,
                        goal,
                        w as int,
                        h as int,
                        crate::position::spec_dir_of_index(#[trigger] dirs@[k1] as int),
                        crate::position::spec_dir_of_index(#[trigger] dirs@[k2] as int),
                    ),
            decreases 4 - i,
        {
            let mut best: usize = i;
            let mut j: usize = i + 1;
            while j < 4
                invariant
                    i < 4,
                    i <= best < j <= 4,
                    keys@.len() == 4,
                    dirs@.len() == 4,
                    p0 == self.pos,
                    forall|k: int| 0 <= k < 4 ==> #[trigger] dirs@[k] < 4,
                    forall|k1: int, k2: int|
                        0 <= k1 < k2 < 4 ==> #[trigger] dirs@[k1] != #[trigger] dirs@[k2],
                    forall|k: int|
                        0 <= k < 4 ==> #[trigger] keys@[k] as int == spec_shift_key(
                            p0,
                            goal,
                            w as int,
                            h as int,
                            crate::position::spec_dir_of_index(dirs@[k] as int),
                        ),
                    forall|k: int|
                        i <= k < j ==> !spec_rank_less(
                            p0,
                            goal,
                            w as int,
                            h as int,
                            crate::position::spec_dir_of_index(#[trigger] dirs@[k] as int),
                            crate::position::spec_dir_of_index(dirs@[best as int] as int),
                        ),
                decreases 4 - j,
            {
                if keys[j] < keys[best] || (keys[j] == keys[best] && dirs[j] < dirs[best]) {
                    best = j;
                }
                j = j + 1;
            }
            if best != i {
                let tk = keys[i];
                let td = dirs[i];
                let bk = keys[best];
                let bd = dirs[best];
                keys.set(i, bk);
                keys.set(best, tk);
                dirs.set(i, bd);
                dirs.set(best, td);
            }
            i = i + 1;
        }
        proof {
            // The sorted array realizes the rank order: the element at
            // each position has exactly that many strictly smaller
            // elements, so it is the direction at that rank.
            let wi = w as int;
            let hi = h as int;
            assert(dirs@[0] != dirs@[1] && dirs@[0] != dirs@[2] && dirs@[0] != dirs@[3] && dirs@[1]
                != dirs@[2] && dirs@[1] != dirs@[3] && dirs@[2] != dirs@[3]);
            assert(dirs@[0] < 4 && dirs@[1] < 4 && dirs@[2] < 4 && dirs@[3] < 4);
            assert forall|rr: int| 0 <= rr < 4 implies spec_dir_at_rank(p0, goal, wi, hi, rr)
                == crate::position::spec_dir_of_index(#[trigger] dirs@[rr] as int) by {
                assert(spec_rank_of(
                    p0,
                    goal,
                    wi,
                    hi,
                    crate::position::spec_dir_of_index(dirs@[rr] as int),
                ) == rr);
            }
        }
        self.preferred_state = WalkerState {
            direction: Direction::from_index(dirs[0]),
            waypoint: self.goal_index,
        };
        // Sample a rank, greediest first.
        let rank = self.rng.sample_index(&self.shift_dist);
        let chosen_key = keys[rank];
        let dsel0 = Direction::from_index(dirs[rank]);
        if chosen_key == SHIFT_KEY_FAR {
            return Err(GenError::OutOfBounds);
        }
        let mut dsel = dsel0;
        // Momentum: sometimes keep the previous direction, if it stays
        // on the grid.
        match self.last_shift {
            Some(last) => {
                let m = self.rng.gen_bool(self.momentum_prob);
                if m {
                    match self.pos.shifted(last, w, h) {
                        Ok(_) => {
                            proof {
                                lemma_shift_key_bounded(
                                    self.pos,
                                    goal,
                                    w as int,
                                    h as int,
                                    last,
                                );
                            }
                            dsel = last;
                        },
                        Err(_) => {},
                    }
                }
            },
            None => {},
        }
        Ok(dsel)
    }

    /// Fire or advance the pulse and lay this step's kernel stamps.
    #[verifier::rlimit(100)]
    #[verifier::spinoff_prover]
    fn stamp_step(&mut self, map: &mut MapGrid, dir: Direction)
        requires
            old(self).wf(),
            old(map).wf(),
            old(self).pos.x < old(map).width,
            old(self).pos.y < old(map).height,
        ensures
            final(self).wf(),
            final(map).wf(),
            MapGrid::spec_same_frame(*old(map), *final(map)),
            old(self).spec_same_config(*final(self)),
            final(self).pos == old(self).pos,
            final(self).steps == old(self).steps,
            final(self).goal_index == old(self).goal_index,
            final(self).finished == old(self).finished,
            final(self).last_shift == old(self).last_shift,
            final(self).next_state == old(self).next_state,
            final(self).rng == old(self).rng,
            final(self).inner_kernel == old(self).inner_kernel,
            final(self).outer_kernel == old(self).outer_kernel,
            final(self).preferred_state == old(self).preferred_state,
            Walker::spec_step_stamps(*old(self), *final(self), *old(map), *final(map), dir),
    {
        let mut pulsed = false;
        match self.pulse {
            Some(pp) => {
                let same_dir = match self.last_shift {
                    Some(last) => last == dir,
                    None => false,
                };
                let fire = (same_dir && self.pulse_counter > pp.straight_delay) || (!same_dir
                    && self.pulse_counter > pp.corner_delay);
                if fire {
                    let fk = Kernel::new(self.inner_kernel.size + 4, 0);
                    let ek = Kernel::new(self.inner_kernel.size + 2, 0);
                    let ghost m0 = *map;
                    let _ = map.apply_kernel(self.pos, &fk, Tile::Freeze, Overwrite::Force);
                    let ghost mid = *map;
                    let _ = map.apply_kernel(self.pos, &ek, Tile::Empty, Overwrite::Force);
                    proof {
                        reveal(crate::map_grid::spec_kernel_stamp_rel);
                        assert(crate::map_grid::spec_kernel_stamp_rel(
                            m0,
                            mid,
                            self.pos,
                            fk,
                            Tile::Freeze,
                            Overwrite::Force,
                        ));
                        assert(crate::map_grid::spec_kernel_stamp_rel(
                            mid,
                            *map,
                            self.pos,
                            ek,
                            Tile::Empty,
                            Overwrite::Force,
                        ));
                    }
                    self.pulse_counter = 0;
                    pulsed = true;
                } else if same_dir && self.inner_kernel.size <= pp.max_kernel_size
                    && self.pulse_counter <= pp.straight_delay {
                    self.pulse_counter = self.pulse_counter + 1;
                } else if !same_dir || self.inner_kernel.size > pp.max_kernel_size {
                    self.pulse_counter = 0;
                }
            },
            None => {},
        }
        // Stamp the kernels: freeze margin first, then the carved tunnel.
        if !pulsed {
            let inner_tile = if self.steps < self.fade_steps {
                Tile::EmptyReserved
            } else {
                Tile::Empty
            };
            let ghost m0 = *map;
            let _ = map.apply_kernel(self.pos, &self.outer_kernel, Tile::Freeze, Overwrite::Force);
            let ghost mid = *map;
            let _ = map.apply_kernel(self.pos, &self.inner_kernel, inner_tile, Overwrite::Force);
            proof {
                reveal(crate::map_grid::spec_kernel_stamp_rel);
                assert(crate::map_grid::spec_kernel_stamp_rel(
                    m0,
                    mid,
                    self.pos,
                    self.outer_kernel,
                    Tile::Freeze,
                    Overwrite::Force,
                ));
                assert(crate::map_grid::spec_kernel_stamp_rel(
                    mid,
                    *map,
                    self.pos,
                    self.inner_kernel,
                    inner_tile,
                    Overwrite::Force,
                ));
            }
        }
    }

    /// One stochastic step.  When the effective waypoint is already
    /// reached the goal advances instead (finishing after the last one).
    /// Otherwise the direction is pinned: a pending override forces its
    /// direction without drawing a word; else a rank is sampled from the
    /// shift distribution over the distance ranking of the four moves
    /// (ties broken by the fixed direction order), a sentinel-ranked
    /// pick fails with `OutOfBounds`, and one momentum word may keep the
    /// previous direction when that move stays on the grid.  The move
    /// and the kernel stamps are `spec_step_move`.
    #[verifier::rlimit(100)]
    #[verifier::spinoff_prover]
    pub fn probabilistic_step(&mut self, map: &mut MapGrid) -> (r: Result<(), GenError>)
        requires
            old(self).wf(),
            old(map).wf(),
            old(self).pos.x < old(map).width,
            old(self).pos.y < old(map).height,
        ensures
            final(self).wf(),
            final(map).wf(),
            MapGrid::spec_same_frame(*old(map), *final(map)),
            old(self).spec_same_config(*final(self)),
            final(self).pos.x < final(map).width,
            final(self).pos.y < final(map).height,
            old(self).finished ==> r == Err::<(), GenError>(GenError::WalkerFinished) && *old(self)
                == *final(self) && *old(map) == *final(map),
            !old(self).finished ==> r != Err::<(), GenError>(GenError::WalkerFinished),
            match r {
                Ok(()) => true,
                Err(e) => e == GenError::WalkerFinished || e == GenError::OutOfBounds,
            },
            (!old(self).finished && spec_goal_reached(
                old(self).pos,
                old(self).waypoints@[spec_effective_goal(*old(self))],
                old(self).waypoint_reached_dist as int,
            )) ==> {
                &&& r == Ok::<(), GenError>(())
                &&& final(self).pos == old(self).pos
                &&& final(self).steps == old(self).steps
                &&& final(self).next_state is None
                &&& final(self).goal_index == spec_effective_goal(*old(self)) + 1
                &&& (final(self).finished <==> spec_effective_goal(*old(self)) + 1 == old(self).waypoints@.len())
                &&& final(map).tiles@ == old(map).tiles@
                &&& final(self).rng.count@ == old(self).rng.count@
            },
            (!old(self).finished && !spec_goal_reached(
                old(self).pos,
                old(self).waypoints@[spec_effective_goal(*old(self))],
                old(self).waypoint_reached_dist as int,
            )) ==> {
                let eg = spec_effective_goal(*old(self));
                let goal = old(self).waypoints@[eg];
                let wi = old(map).width as int;
                let hi = old(map).height as int;
                match old(self).next_state {
                    Some(st) => {
                        &&& final(self).rng.count@ == old(self).rng.count@
                        &&& (r is Ok <==> spec_shift_key(old(self).pos, goal, wi, hi, st.direction)
                            != SHIFT_KEY_FAR)
                        &&& (r is Ok ==> Walker::spec_step_move(
                            *old(self),
                            *final(self),
                            *old(map),
                            *final(map),
                            st.direction,
                            eg,
                        ))
                        &&& (r is Err ==> final(map).tiles@ == old(map).tiles@)
                    },
                    None => {
                        let c = old(self).rng.count@;
                        let seed = old(self).rng.seed;
                        let i = crate::dist::spec_sample_index(
                            old(self).shift_dist,
                            crate::random::spec_stream(seed, c),
                            crate::random::spec_stream(seed, c + 1),
                        );
                        let d0 = spec_dir_at_rank(old(self).pos, goal, wi, hi, i);
                        &&& (r is Err <==> spec_shift_key(old(self).pos, goal, wi, hi, d0)
                            == SHIFT_KEY_FAR)
                        &&& (r is Err ==> final(self).rng.count@ == c + 2 && final(map).tiles@
                            == old(map).tiles@)
                        &&& (r is Ok ==> {
                            let mom = old(self).last_shift is Some && crate::random::spec_gen_bool(
                                crate::random::spec_stream(seed, c + 2),
                                old(self).momentum_prob,
                            ) && spec_shift_key(
                                old(self).pos,
                                goal,
                                wi,
                                hi,
                                old(self).last_shift.unwrap(),
                            ) != SHIFT_KEY_FAR;
                            let d = if mom {
                                old(self).last_shift.unwrap()
                            } else {
                                d0
                            };
                            &&& final(self).rng.count@ == c + 2 + (if old(self).last_shift is Some {
                                1int
                            } else {
                                0int
                            })
                            &&& Walker::spec_step_move(
                                *old(self),
                                *final(self),
                                *old(map),
                                *final(map),
                                d,
                                eg,
                            )
                        })
                    },
                }
            },
    {
        if self.finished {
            return Err(GenError::WalkerFinished);
        }
        // A forced override may redirect the walker to another waypoint.
        let mut forced: Option<Direction> = None;
        match self.next_state {
            Some(st) => {
                forced = Some(st.direction);
                if st.waypoint < self.waypoints.len() {
                    self.goal_index = st.waypoint;
                }
                self.next_state = None;
            },
            None => {},
        }
        let goal = self.waypoints[self.goal_index];
        // Goal-reached test: advance the waypoint, finishing on the last.
        let wrd = self.waypoint_reached_dist;
        proof {
            assert((wrd as int) * (wrd as int) <= 1_000_000_000_000) by (nonlinear_arith)
                requires
                    wrd <= 1_000_000,
            ;
        }
        let reach: u64 = (wrd as u64) * (wrd as u64);
        let wplen = self.waypoints.len();
        if self.pos.sq_dist(&goal) <= reach {
            assert(self.goal_index < wplen);
            self.goal_index = self.goal_index + 1;
            if self.goal_index == wplen {
                self.finished = true;
            }
            return Ok(());
        }
        let w = map.width;
        let h = map.height;
        let dir: Direction;
        match forced {
            Some(d) => {
                dir = d;
            },
            None => {
                dir = match self.sample_direction(goal, w, h) {
                    Ok(d) => d,
                    Err(e) => {
                        return Err(e);
                    },
                };
            },
        }
        // Move.
        let newpos = match self.pos.shifted(dir, w, h) {
            Ok(p) => p,
            Err(e) => {
                return Err(e);
            },
        };
        proof {
            crate::position::lemma_shift_dist(self.pos, dir, newpos);
            lemma_shift_key_bounded(self.pos, goal, w as int, h as int, dir);
        }
        self.pos = newpos;
        if self.steps < usize::MAX {
            self.steps = self.steps + 1;
        }
        let ghost pre_stamp = *self;
        let ghost m0 = *map;
        self.stamp_step(map, dir);
        let ghost post_stamp = *self;
        self.last_shift = Some(dir);
        proof {
            // Transfer the stamp relation from the helper's view of the
            // walker to the step's own: the two differ only in fields
            // the relation does not read.
            assert(Walker::spec_step_stamps(pre_stamp, post_stamp, m0, *map, dir));
            let same_dir = (*old(self)).last_shift == Some(dir);
            let fire = match (*old(self)).pulse {
                Some(pp) => (same_dir && (*old(self)).pulse_counter > pp.straight_delay) || (
                !same_dir && (*old(self)).pulse_counter > pp.corner_delay),
                None => false,
            };
            if fire {
                let (fk, ek, mid) = choose|fk: Kernel, ek: Kernel, mid: MapGrid|
                    fk.wf() && fk.size == pre_stamp.inner_kernel.size + 4 && fk.circularity == 0
                        && ek.wf() && ek.size == pre_stamp.inner_kernel.size + 2 && ek.circularity
                        == 0 && #[trigger] crate::map_grid::spec_kernel_stamp_rel(
                        m0,
                        mid,
                        post_stamp.pos,
                        fk,
                        Tile::Freeze,
                        Overwrite::Force,
                    ) && #[trigger] crate::map_grid::spec_kernel_stamp_rel(
                        mid,
                        *map,
                        post_stamp.pos,
                        ek,
                        Tile::Empty,
                        Overwrite::Force,
                    );
                assert(crate::map_grid::spec_kernel_stamp_rel(
                    m0,
                    mid,
                    self.pos,
                    fk,
                    Tile::Freeze,
                    Overwrite::Force,
                ));
                assert(crate::map_grid::spec_kernel_stamp_rel(
                    mid,
                    *map,
                    self.pos,
                    ek,
                    Tile::Empty,
                    Overwrite::Force,
                ));
            } else {
                let mid = choose|mid: MapGrid|
                    #[trigger] crate::map_grid::spec_kernel_stamp_rel(
                        m0,
                        mid,
                        post_stamp.pos,
                        pre_stamp.outer_kernel,
                        Tile::Freeze,
                        Overwrite::Force,
                    ) && crate::map_grid::spec_kernel_stamp_rel(
                        mid,
                        *map,
                        post_stamp.pos,
                        pre_stamp.inner_kernel,
                        (if post_stamp.steps < pre_stamp.fade_steps {
                            Tile::EmptyReserved
                        } else {
                            Tile::Empty
                        }),
                        Overwrite::Force,
                    );
                assert(crate::map_grid::spec_kernel_stamp_rel(
                    m0,
                    mid,
                    self.pos,
                    old(self).outer_kernel,
                    Tile::Freeze,
                    Overwrite::Force,
                ));
                assert(crate::map_grid::spec_kernel_stamp_rel(
                    mid,
                    *map,
                    self.pos,
                    old(self).inner_kernel,
                    (if self.steps < old(self).fade_steps {
                        Tile::EmptyReserved
                    } else {
                        Tile::Empty
                    }),
                    Overwrite::Force,
                ));
            }
            assert(Walker::spec_step_stamps(*old(self), *self, *old(map), *map, dir));
            assert(Walker::spec_step_move(
                *old(self),
                *self,
                *old(map),
                *map,
                dir,
                self.goal_index as int,
            ));
        }
        Ok(())
    }

    /// Platform bookkeeping after a step: below `min` steps nothing
    /// happens; above `max` a forced platform arena is stamped (failures
    /// tolerated); in between a platform is laid when a clear rectangle
    /// of `Empty` surrounds the walker.
    pub fn check_platform(&mut self, map: &mut MapGrid, min: usize, max: usize)
        requires
            old(self).wf(),
            old(map).wf(),
            old(self).pos.x < old(map).width,
            old(self).pos.y < old(map).height,
        ensures
            final(self).wf(),
            final(map).wf(),
            final(map).width == old(map).width,
            final(map).height == old(map).height,
            final(map).fill_tile == old(map).fill_tile,
            final(map).chunks_x == old(map).chunks_x,
            final(map).chunks_y == old(map).chunks_y,
            final(map).dirty@.len() == old(map).dirty@.len(),
            forall|i: int|
                0 <= i < old(map).dirty@.len() && old(map).dirty@[i] ==> final(map).dirty@[i],
            old(self).spec_same_config(*final(self)),
            final(self).rng == old(self).rng,
            final(self).pos == old(self).pos,
            final(self).steps == old(self).steps,
            final(self).goal_index == old(self).goal_index,
            final(self).finished == old(self).finished,
            final(self).last_shift == old(self).last_shift,
            final(self).next_state == old(self).next_state,
            final(self).pulse_counter == old(self).pulse_counter,
            final(self).inner_kernel == old(self).inner_kernel,
            final(self).outer_kernel == old(self).outer_kernel,
            final(self).preferred_state == old(self).preferred_state,
            (old(self).steps_since_platform < usize::MAX && old(self).steps_since_platform + 1
                < min) ==> final(self).steps_since_platform == old(self).steps_since_platform + 1
                && final(map).tiles@ == old(map).tiles@,
            (old(self).steps_since_platform < usize::MAX && old(self).steps_since_platform + 1
                >= min && old(self).steps_since_platform + 1 > max) ==> final(self).steps_since_platform == 0
                && ({
                // Forced platform arena six cells below the walker; a
                // room that does not fit leaves the map untouched.
                let arena = Position { x: old(self).pos.x, y: (old(self).pos.y + 6) as usize };
                if crate::post_processing::spec_room_fits(
                    arena,
                    5,
                    old(map).width as int,
                    old(map).height as int,
                ) {
                    &&& final(map).reserved@ == old(map).reserved@.push(
                        crate::map_grid::Rect {
                            x0: (arena.x - 4) as usize,
                            y0: (arena.y - 4) as usize,
                            x1: (arena.x + 4) as usize,
                            y1: (arena.y + 4) as usize,
                        },
                    )
                    &&& forall|a: int, b: int|
                        final(map).spec_in_bounds(a, b) ==> #[trigger] final(map).spec_tile(a, b)
                            == crate::post_processing::spec_room_tile(
                            old(map).spec_tile(a, b),
                            a - arena.x,
                            b - arena.y,
                            5,
                            3,
                            None,
                        )
                } else {
                    final(map).tiles@ == old(map).tiles@ && final(map).reserved@ == old(
                        map,
                    ).reserved@
                }
            }),
            (old(self).steps_since_platform < usize::MAX && min <= old(self).steps_since_platform
                + 1 <= max) ==> ({
                // In range: a platform is laid exactly when a clear
                // rectangle of empty tiles surrounds the walker.
                let px = old(self).pos.x as int;
                let py = old(self).pos.y as int;
                let clear = px >= 3 && py >= 3 && px + 3 < old(map).width && py + 2 < old(
                    map,
                ).height && (forall|a: int, b: int|
                    px - 3 <= a <= px + 3 && py - 3 <= b <= py + 2 ==> #[trigger] old(
                        map,
                    ).spec_tile(a, b) == Tile::Empty);
                if clear {
                    &&& final(self).steps_since_platform == 0
                    &&& forall|a: int, b: int|
                        final(map).spec_in_bounds(a, b) ==> #[trigger] final(map).spec_tile(a, b)
                            == (if px - 1 <= a <= px + 1 && b == py && crate::tile::spec_allows(
                            Overwrite::ReplaceEmptyOnly,
                            old(map).spec_tile(a, b),
                        ) {
                            Tile::Platform
                        } else {
                            old(map).spec_tile(a, b)
                        })
                } else {
                    &&& final(self).steps_since_platform == old(self).steps_since_platform + 1
                    &&& final(map).tiles@ == old(map).tiles@
                }
            }),
    {
        if self.steps_since_platform < usize::MAX {
            self.steps_since_platform = self.steps_since_platform + 1;
        }
        if self.steps_since_platform < min {
            return ;
        }
        if self.steps_since_platform > max {
            // Forced platform arena below the walker; a room that does
            // not fit is silently skipped.
            let _ = crate::post_processing::generate_room(
                map,
                Position::new(self.pos.x, self.pos.y + 6),
                5,
                3,
                None,
            );
            self.steps_since_platform = 0;
            return ;
        }
        // Require a clear rectangle around the walker.
        if self.pos.x >= 3 && self.pos.y >= 3 && self.pos.x + 3 < map.width && self.pos.y + 2
            < map.height {
            let tl = Position::new(self.pos.x - 3, self.pos.y - 3);
            let br = Position::new(self.pos.x + 3, self.pos.y + 2);
            let clear = match map.check_area_all(tl, br, Tile::Empty) {
                Ok(b) => b,
                Err(_) => false,
            };
            if clear {
                let _ = map.set_area(
                    Position::new(self.pos.x - 1, self.pos.y),
                    Position::new(self.pos.x + 1, self.pos.y),
                    Tile::Platform,
                    Overwrite::ReplaceEmptyOnly,
                );
                self.steps_since_platform = 0;
            }
        }
    }

    /// One full walker step: kernel mutation, the stochastic move and
    /// stamp, then platform bookkeeping.
    pub fn step(&mut self, map: &mut MapGrid, platform_min: usize, platform_max: usize) -> (r:
        Result<(), GenError>)
        requires
            old(self).wf(),
            old(map).wf(),
            old(self).pos.x < old(map).width,
            old(self).pos.y < old(map).height,
        ensures
            final(self).wf(),
            final(map).wf(),
            final(map).width == old(map).width,
            final(map).height == old(map).height,
            final(map).fill_tile == old(map).fill_tile,
            final(self).pos.x < final(map).width,
            final(self).pos.y < final(map).height,
            old(self).spec_same_config(*final(self)),
            old(self).finished ==> r == Err::<(), GenError>(GenError::WalkerFinished) && *old(self)
                == *final(self) && *old(map) == *final(map),
            !old(self).finished ==> r != Err::<(), GenError>(GenError::WalkerFinished),
            match r {
                Ok(()) => true,
                Err(e) => e == GenError::WalkerFinished || e == GenError::OutOfBounds,
            },
            r is Ok ==> ((final(self).pos == old(self).pos && final(self).goal_index
                == spec_effective_goal(*old(self)) + 1 && final(self).steps == old(self).steps) || (
            spec_sq_dist(old(self).pos, final(self).pos) == 1 && final(self).last_shift is Some && (
            old(self).steps < usize::MAX ==> final(self).steps == old(self).steps + 1))),
    {
        if self.finished {
            return Err(GenError::WalkerFinished);
        }
        if self.steps > 0 {
            self.mutate_kernel();
        }
        let ghost mid_self = *self;
        match self.probabilistic_step(map) {
            Ok(()) => {},
            Err(e) => {
                return Err(e);
            },
        }
        proof {
            assert((self.pos == mid_self.pos && self.goal_index == spec_effective_goal(mid_self)
                + 1 && self.steps == mid_self.steps) || (spec_sq_dist(mid_self.pos, self.pos) == 1
                && self.last_shift is Some && (mid_self.steps < usize::MAX ==> self.steps
                == mid_self.steps + 1))) by {
                if spec_goal_reached(
                    mid_self.pos,
                    mid_self.waypoints@[spec_effective_goal(mid_self)],
                    mid_self.waypoint_reached_dist as int,
                ) {
                } else {
                    match mid_self.next_state {
                        Some(st) => {
                            crate::position::lemma_shift_dist(mid_self.pos, st.direction, self.pos);
                        },
                        None => {
                            let c = mid_self.rng.count@;
                            let seed = mid_self.rng.seed;
                            let goal = mid_self.waypoints@[spec_effective_goal(mid_self)];
                            let wi = old(map).width as int;
                            let hi = old(map).height as int;
                            let i = crate::dist::spec_sample_index(
                                mid_self.shift_dist,
                                crate::random::spec_stream(seed, c),
                                crate::random::spec_stream(seed, c + 1),
                            );
                            let d0 = spec_dir_at_rank(mid_self.pos, goal, wi, hi, i);
                            let mom = mid_self.last_shift is Some && crate::random::spec_gen_bool(
                                crate::random::spec_stream(seed, c + 2),
                                mid_self.momentum_prob,
                            ) && spec_shift_key(
                                mid_self.pos,
                                goal,
                                wi,
                                hi,
                                mid_self.last_shift.unwrap(),
                            ) != SHIFT_KEY_FAR;
                            let d = if mom {
                                mid_self.last_shift.unwrap()
                            } else {
                                d0
                            };
                            crate::position::lemma_shift_dist(mid_self.pos, d, self.pos);
                        },
                    }
                }
            }
        }
        self.check_platform(map, platform_min, platform_max);
        Ok(())
    }
}

/// Clamp a value into an inclusive range.
fn clamp_usize(v: usize, lo: usize, hi: usize) -> (r: usize)
    requires
        lo <= hi,
    ensures
        lo <= r <= hi,
        r == if v < lo {
            lo
        } else if v > hi {
            hi
        } else {
            v
        },
{
    if v < lo {
        lo
    } else if v > hi {
        hi
    } else {
        v
    }
}

/// Clamp a value to an upper bound.
fn clamp_u32(v: u32, hi: u32) -> (r: u32)
    ensures
        r <= hi,
        r == if v > hi {
            hi
        } else {
            v
        },
{
    if v > hi {
        hi
    } else {
        v
    }
}

} // verus!
