//! The tunable parameter bundles the generator consumes.
//!
//! Probabilities are fixed-point fractions of `PROB_SCALE`; circularities
//! of `CIRC_SCALE`.  The bundles are plain data: validation and clamping
//! to machine limits happen where a walker is built from them.

use vstd::prelude::*;

use crate::dist::{ProbableValue, RandomDistConfig};

verus! {

/// Parameters of the pulse feature: periodic widening of the passage
/// while the walker moves in a straight line.
#[derive(Clone, Copy, Debug)]
pub struct PulseParams {
    pub straight_delay: usize,
    pub corner_delay: usize,
    pub max_kernel_size: usize,
}

/// Parameters of the walker.
#[derive(Clone, Debug)]
pub struct WalkerParams {
    /// Probability that the inner kernel size is re-sampled each step.
    pub inner_size_mut_prob: u32,
    /// Probability that the outer margin is re-sampled each step.
    pub outer_size_mut_prob: u32,
    /// Probability that the inner circularity is re-sampled each step.
    pub inner_rad_mut_prob: u32,
    /// Probability that the outer circularity is re-sampled each step.
    pub outer_rad_mut_prob: u32,
    /// Probability that the previous direction is kept.
    pub momentum_prob: u32,
    /// Distribution over the four direction ranks, greediest first.
    pub shift_weights: RandomDistConfig<usize>,
    /// Distribution of inner kernel sizes.
    pub inner_size_probs: RandomDistConfig<usize>,
    /// Distribution of outer kernel margins.
    pub outer_margin_probs: RandomDistConfig<usize>,
    /// Distribution of kernel circularities.
    pub circ_probs: RandomDistConfig<u32>,
    /// Optional pulse behaviour.
    pub pulse: Option<PulseParams>,
    /// Length of the initial fade ramp, in steps; zero disables it.
    pub fade_steps: usize,
    /// Kernel size at the start of the fade ramp.
    pub fade_max_size: usize,
    /// Kernel size at the end of the fade ramp.
    pub fade_min_size: usize,
}

/// Parameters of the generator facade and its post-processing passes.
#[derive(Clone, Copy, Debug)]
pub struct GeneratorParams {
    /// Minimum and maximum steps between platforms.
    pub platform_distance_bounds: (usize, usize),
    /// Squared distance beyond which open areas are filled back in.
    pub max_distance_sqr: u64,
    /// Distance under which a waypoint counts as reached.
    pub waypoint_reached_dist: usize,
    /// Shortest and longest accepted skip corridor.
    pub skip_length_bounds: (usize, usize),
    /// Minimum squared distance between the midpoints of two skips.
    pub skip_min_spacing_sqr: u64,
    /// Freeze blobs smaller than this are removed; zero disables the pass.
    pub min_freeze_size: usize,
}

impl WalkerParams {
    /// A forgiving all-round preset: strong pull toward the goal, mild
    /// kernel mutation, a moderate fade ramp and no pulse.
    pub fn easy() -> (r: WalkerParams)
        ensures
            r.shift_weights.values@.len() == 4,
            r.inner_size_probs.values@.len() > 0,
            r.outer_margin_probs.values@.len() > 0,
            r.circ_probs.values@.len() > 0,
    {
        let mut shift: Vec<ProbableValue<usize>> = Vec::new();
        shift.push(ProbableValue::new(650_000, 0));
        shift.push(ProbableValue::new(250_000, 1));
        shift.push(ProbableValue::new(100_000, 2));
        shift.push(ProbableValue::new(0, 3));
        let mut inner_sizes: Vec<ProbableValue<usize>> = Vec::new();
        inner_sizes.push(ProbableValue::new(250_000, 3));
        inner_sizes.push(ProbableValue::new(500_000, 4));
        inner_sizes.push(ProbableValue::new(250_000, 5));
        let mut margins: Vec<ProbableValue<usize>> = Vec::new();
        margins.push(ProbableValue::new(600_000, 2));
        margins.push(ProbableValue::new(400_000, 3));
        let mut circs: Vec<ProbableValue<u32>> = Vec::new();
        circs.push(ProbableValue::new(500_000, 0));
        circs.push(ProbableValue::new(300_000, 60));
        circs.push(ProbableValue::new(200_000, 100));
        WalkerParams {
            inner_size_mut_prob: 100_000,
            outer_size_mut_prob: 100_000,
            inner_rad_mut_prob: 100_000,
            outer_rad_mut_prob: 100_000,
            momentum_prob: 10_000,
            shift_weights: RandomDistConfig::from_values(shift),
            inner_size_probs: RandomDistConfig::from_values(inner_sizes),
            outer_margin_probs: RandomDistConfig::from_values(margins),
            circ_probs: RandomDistConfig::from_values(circs),
            pulse: None,
            fade_steps: 16,
            fade_max_size: 8,
            fade_min_size: 3,
        }
    }
}

impl GeneratorParams {
    /// A forgiving all-round preset matching `WalkerParams::easy`.
    pub fn easy() -> (r: GeneratorParams)
        ensures
            r.platform_distance_bounds.0 <= r.platform_distance_bounds.1,
            r.skip_length_bounds.0 <= r.skip_length_bounds.1,
    {
        GeneratorParams {
            platform_distance_bounds: (40, 200),
            max_distance_sqr: 900,
            waypoint_reached_dist: 3,
            skip_length_bounds: (3, 9),
            skip_min_spacing_sqr: 100,
            min_freeze_size: 8,
        }
    }
}

impl GeneratorParams {
    /// The bundle flattened to plain words, for structured storage.
    pub fn to_fields(&self) -> (r: Vec<u64>)
        ensures
            r@.len() == 8,
            r@[0] == self.platform_distance_bounds.0 as u64,
            r@[1] == self.platform_distance_bounds.1 as u64,
            r@[2] == self.max_distance_sqr,
            r@[3] == self.waypoint_reached_dist as u64,
            r@[4] == self.skip_length_bounds.0 as u64,
            r@[5] == self.skip_length_bounds.1 as u64,
            r@[6] == self.skip_min_spacing_sqr,
            r@[7] == self.min_freeze_size as u64,
    {
        let mut out: Vec<u64> = Vec::new();
        out.push(self.platform_distance_bounds.0 as u64);
        out.push(self.platform_distance_bounds.1 as u64);
        out.push(self.max_distance_sqr);
        out.push(self.waypoint_reached_dist as u64);
        out.push(self.skip_length_bounds.0 as u64);
        out.push(self.skip_length_bounds.1 as u64);
        out.push(self.skip_min_spacing_sqr);
        out.push(self.min_freeze_size as u64);
        out
    }

    /// The bundle read back from its flattened words; rejects a list of
    /// the wrong shape or with values too large for this machine.
    pub fn from_fields(fields: &Vec<u64>) -> (r: Option<GeneratorParams>)
        ensures
            match r {
                Some(p) => {
                    &&& fields@.len() == 8
                    &&& p.platform_distance_bounds.0 as u64 == fields@[0]
                    &&& p.platform_distance_bounds.1 as u64 == fields@[1]
                    &&& p.max_distance_sqr == fields@[2]
                    &&& p.waypoint_reached_dist as u64 == fields@[3]
                    &&& p.skip_length_bounds.0 as u64 == fields@[4]
                    &&& p.skip_length_bounds.1 as u64 == fields@[5]
                    &&& p.skip_min_spacing_sqr == fields@[6]
                    &&& p.min_freeze_size as u64 == fields@[7]
                },
                None => fields@.len() != 8 || fields@[0] > usize::MAX as u64 || fields@[1]
                    > usize::MAX as u64 || fields@[3] > usize::MAX as u64 || fields@[4]
                    > usize::MAX as u64 || fields@[5] > usize::MAX as u64 || fields@[7]
                    > usize::MAX as u64,
            },
    {
        if fields.len() != 8 {
            return None;
        }
        if fields[0] > usize::MAX as u64 || fields[1] > usize::MAX as u64 || fields[3]
            > usize::MAX as u64 || fields[4] > usize::MAX as u64 || fields[5] > usize::MAX as u64
            || fields[7] > usize::MAX as u64 {
            return None;
        }
        Some(
            GeneratorParams {
                platform_distance_bounds: (fields[0] as usize, fields[1] as usize),
                max_distance_sqr: fields[2],
                waypoint_reached_dist: fields[3] as usize,
                skip_length_bounds: (fields[4] as usize, fields[5] as usize),
                skip_min_spacing_sqr: fields[6],
                min_freeze_size: fields[7] as usize,
            },
        )
    }

    /// Round trip: flattening a bundle and reading it back yields the
    /// bundle itself, so stored parameters drive identical output.
    pub fn reencode(&self) -> (r: Option<GeneratorParams>)
        ensures
            r == Some(*self),
    {
        let fields = self.to_fields();
        GeneratorParams::from_fields(&fields)
    }
}

} // verus!
