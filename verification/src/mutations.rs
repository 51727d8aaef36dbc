//! Stepwise transformation system: mutators force walker direction and
//! waypoint overrides or rescale the carving kernels, one step per call,
//! and can be composed into bounded or endless loops.

use vstd::prelude::*;
use vstd::pervasive::VecAdditionalExecFns;

use crate::kernel::Kernel;
use crate::position::Direction;
use crate::walker::{Walker, WalkerState};

verus! {

/// Whether a mutator still has work to do.
#[derive(Clone, Copy, Debug, PartialEq, Eq, Structural)]
pub enum MutationState {
    Processing,
    Finished,
}

/// A stateful, stepwise transformation of a mutant of type `T`.
///
/// `reset` returns a mutator to its initial state, which enables loops;
/// the law is part of the trait contract through `initial`.
pub trait Mutator<T>: Sized {
    /// The state this mutator starts from.
    spec fn initial(self) -> Self;

    /// Apply one step of the transformation.
    fn mutate(&mut self, mutant: &mut T) -> MutationState;

    /// Return to the initial state.
    fn reset(&mut self)
        ensures
            *final(self) == old(self).initial(),
    ;
}

/// Forces the walker to keep its preferred direction.
#[derive(Clone, Copy, Debug, PartialEq, Eq, Structural)]
pub struct StraightWalkerMutation {
    pub overall_steps: usize,
    pub steps: usize,
}

impl StraightWalkerMutation {
    /// A mutation that runs for `overall_steps` steps.
    pub fn new(overall_steps: usize) -> (r: Self)
        ensures
            r.overall_steps == overall_steps,
            r.steps == overall_steps,
    {
        StraightWalkerMutation { overall_steps, steps: overall_steps }
    }
}

impl StraightWalkerMutation {
    /// One step of the transformation, recording the forced override.
    /// Only the walker's pending override changes.
    pub fn apply(&mut self, mutant: &mut Walker) -> (r: MutationState)
        ensures
            *final(mutant) == (Walker { next_state: final(mutant).next_state, ..*old(mutant) }),
            final(self).overall_steps == old(self).overall_steps,
            old(self).steps == 0 ==> r == MutationState::Finished && *final(self) == *old(self)
                && *final(mutant) == *old(mutant),
            old(self).steps > 0 ==> r == MutationState::Processing && final(self).steps == old(self).steps - 1 && final(mutant).next_state == Some(
                WalkerState {
                    direction: old(mutant).preferred_state.direction,
                    waypoint: old(mutant).preferred_state.waypoint,
                },
            ),
    {
        if self.steps == 0 {
            return MutationState::Finished;
        }
        let needed = mutant.preferred_state();
        mutant.set_next_direction(needed.direction);
        mutant.set_next_waypoint(needed.waypoint);
        self.steps = self.steps - 1;
        MutationState::Processing
    }
}

impl Mutator<Walker> for StraightWalkerMutation {
    open spec fn initial(self) -> Self {
        StraightWalkerMutation { steps: self.overall_steps, ..self }
    }

    fn mutate(&mut self, mutant: &mut Walker) -> MutationState {
        self.apply(mutant)
    }

    fn reset(&mut self) {
        self.steps = self.overall_steps;
    }
}

/// Forces the walker a quarter turn counter-clockwise off its preferred
/// direction.
#[derive(Clone, Copy, Debug, PartialEq, Eq, Structural)]
pub struct LeftWalkerMutation {
    pub overall_steps: usize,
    pub steps: usize,
}

impl LeftWalkerMutation {
    /// A mutation that runs for `overall_steps` steps.
    pub fn new(overall_steps: usize) -> (r: Self)
        ensures
            r.overall_steps == overall_steps,
            r.steps == overall_steps,
    {
        LeftWalkerMutation { overall_steps, steps: overall_steps }
    }
}

impl LeftWalkerMutation {
    /// One step of the transformation, recording the forced override.
    /// Only the walker's pending override changes.
    pub fn apply(&mut self, mutant: &mut Walker) -> (r: MutationState)
        ensures
            *final(mutant) == (Walker { next_state: final(mutant).next_state, ..*old(mutant) }),
            final(self).overall_steps == old(self).overall_steps,
            old(self).steps == 0 ==> r == MutationState::Finished && *final(self) == *old(self)
                && *final(mutant) == *old(mutant),
            old(self).steps > 0 ==> r == MutationState::Processing && final(self).steps == old(self).steps - 1 && final(mutant).next_state == Some(
                WalkerState {
                    direction: crate::position::spec_prev_dir(old(mutant).preferred_state.direction),
                    waypoint: old(mutant).preferred_state.waypoint,
                },
            ),
    {
        if self.steps == 0 {
            return MutationState::Finished;
        }
        let needed = mutant.preferred_state();
        mutant.set_next_direction(needed.direction.prev());
        mutant.set_next_waypoint(needed.waypoint);
        self.steps = self.steps - 1;
        MutationState::Processing
    }
}

impl Mutator<Walker> for LeftWalkerMutation {
    open spec fn initial(self) -> Self {
        LeftWalkerMutation { steps: self.overall_steps, ..self }
    }

    fn mutate(&mut self, mutant: &mut Walker) -> MutationState {
        self.apply(mutant)
    }

    fn reset(&mut self) {
        self.steps = self.overall_steps;
    }
}

/// Forces the walker a quarter turn clockwise off its preferred
/// direction.
#[derive(Clone, Copy, Debug, PartialEq, Eq, Structural)]
pub struct RightWalkerMutation {
    pub overall_steps: usize,
    pub steps: usize,
}

impl RightWalkerMutation {
    /// A mutation that runs for `overall_steps` steps.
    pub fn new(overall_steps: usize) -> (r: Self)
        ensures
            r.overall_steps == overall_steps,
            r.steps == overall_steps,
    {
        RightWalkerMutation { overall_steps, steps: overall_steps }
    }
}

impl RightWalkerMutation {
    /// One step of the transformation, recording the forced override.
    /// Only the walker's pending override changes.
    pub fn apply(&mut self, mutant: &mut Walker) -> (r: MutationState)
        ensures
            *final(mutant) == (Walker { next_state: final(mutant).next_state, ..*old(mutant) }),
            final(self).overall_steps == old(self).overall_steps,
            old(self).steps == 0 ==> r == MutationState::Finished && *final(self) == *old(self)
                && *final(mutant) == *old(mutant),
            old(self).steps > 0 ==> r == MutationState::Processing && final(self).steps == old(self).steps - 1 && final(mutant).next_state == Some(
                WalkerState {
                    direction: crate::position::spec_next_dir(old(mutant).preferred_state.direction),
                    waypoint: old(mutant).preferred_state.waypoint,
                },
            ),
    {
        if self.steps == 0 {
            return MutationState::Finished;
        }
        let needed = mutant.preferred_state();
        mutant.set_next_direction(needed.direction.next());
        mutant.set_next_waypoint(needed.waypoint);
        self.steps = self.steps - 1;
        MutationState::Processing
    }
}

impl Mutator<Walker> for RightWalkerMutation {
    open spec fn initial(self) -> Self {
        RightWalkerMutation { steps: self.overall_steps, ..self }
    }

    fn mutate(&mut self, mutant: &mut Walker) -> MutationState {
        self.apply(mutant)
    }

    fn reset(&mut self) {
        self.steps = self.overall_steps;
    }
}

/// Forces the walker to turn around.
#[derive(Clone, Copy, Debug, PartialEq, Eq, Structural)]
pub struct BackwardsWalkerMutation {
    pub overall_steps: usize,
    pub steps: usize,
}

impl BackwardsWalkerMutation {
    /// A mutation that runs for `overall_steps` steps.
    pub fn new(overall_steps: usize) -> (r: Self)
        ensures
            r.overall_steps == overall_steps,
            r.steps == overall_steps,
    {
        BackwardsWalkerMutation { overall_steps, steps: overall_steps }
    }
}

impl BackwardsWalkerMutation {
    /// One step of the transformation, recording the forced override.
    /// Only the walker's pending override changes.
    pub fn apply(&mut self, mutant: &mut Walker) -> (r: MutationState)
        ensures
            *final(mutant) == (Walker { next_state: final(mutant).next_state, ..*old(mutant) }),
            final(self).overall_steps == old(self).overall_steps,
            old(self).steps == 0 ==> r == MutationState::Finished && *final(self) == *old(self)
                && *final(mutant) == *old(mutant),
            old(self).steps > 0 ==> r == MutationState::Processing && final(self).steps == old(self).steps - 1 && final(mutant).next_state == Some(
                WalkerState {
                    direction: crate::position::spec_next_dir(crate::position::spec_next_dir(old(mutant).preferred_state.direction)),
                    waypoint: old(mutant).preferred_state.waypoint,
                },
            ),
    {
        if self.steps == 0 {
            return MutationState::Finished;
        }
        let needed = mutant.preferred_state();
        mutant.set_next_direction(needed.direction.backwards());
        mutant.set_next_waypoint(needed.waypoint);
        self.steps = self.steps - 1;
        MutationState::Processing
    }
}

impl Mutator<Walker> for BackwardsWalkerMutation {
    open spec fn initial(self) -> Self {
        BackwardsWalkerMutation { steps: self.overall_steps, ..self }
    }

    fn mutate(&mut self, mutant: &mut Walker) -> MutationState {
        self.apply(mutant)
    }

    fn reset(&mut self) {
        self.steps = self.overall_steps;
    }
}

/// Forces a stateless pseudo-random direction and waypoint each step,
/// derived from the mutation's own seed and step counter.
#[derive(Clone, Copy, Debug, PartialEq, Eq, Structural)]
pub struct RandomWalkerMutation {
    pub seed: u64,
    pub overall_steps: usize,
    pub steps: usize,
}

impl RandomWalkerMutation {
    /// A mutation that runs for `overall_steps` steps from `seed`.
    pub fn new(overall_steps: usize, seed: u64) -> (r: Self)
        ensures
            r.overall_steps == overall_steps,
            r.steps == overall_steps,
            r.seed == seed,
    {
        RandomWalkerMutation { seed, overall_steps, steps: overall_steps }
    }
}

impl RandomWalkerMutation {
    /// One step of the transformation, recording the forced override.
    /// Only the walker's pending override changes.
    pub fn apply(&mut self, mutant: &mut Walker) -> (r: MutationState)
        ensures
            *final(mutant) == (Walker { next_state: final(mutant).next_state, ..*old(mutant) }),
            final(self).overall_steps == old(self).overall_steps,
            old(self).steps == 0 ==> r == MutationState::Finished && *final(self) == *old(self)
                && *final(mutant) == *old(mutant),
            old(self).steps > 0 ==> ({
                let word = spec_scramble(old(self).seed, old(self).steps as u64);
                &&& r == MutationState::Processing
                &&& final(self).steps == old(self).steps - 1
                &&& final(mutant).next_state == Some(
                    WalkerState {
                        direction: crate::position::spec_dir_of_index((word % 4) as int),
                        waypoint: (if old(mutant).waypoints@.len() > 0 {
                            ((word >> 2) as int % old(mutant).waypoints@.len() as int) as usize
                        } else {
                            0usize
                        }),
                    },
                )
            }),
    {
        if self.steps == 0 {
            return MutationState::Finished;
        }
        let word = scramble(self.seed, self.steps as u64);
        let dir = Direction::from_index((word % 4) as usize);
        let n = mutant.waypoints.len();
        let wp: usize = if n > 0 {
            ((word >> 2) % (n as u64)) as usize
        } else {
            0
        };
        mutant.set_next_direction(dir);
        mutant.set_next_waypoint(wp);
        self.steps = self.steps - 1;
        MutationState::Processing
    }
}

impl Mutator<Walker> for RandomWalkerMutation {
    open spec fn initial(self) -> Self {
        RandomWalkerMutation { steps: self.overall_steps, ..self }
    }

    fn mutate(&mut self, mutant: &mut Walker) -> MutationState {
        self.apply(mutant)
    }

    fn reset(&mut self) {
        self.steps = self.overall_steps;
    }
}

/// The stateless word a seed and an index mix to.
pub open spec fn spec_scramble(seed: u64, i: u64) -> u64 {
    let z = seed.wrapping_add(i.wrapping_mul(crate::random::SM_GAMMA));
    let z1 = (z ^ (z >> 30)).wrapping_mul(crate::random::SM_MUL_1);
    let z2 = (z1 ^ (z1 >> 27)).wrapping_mul(crate::random::SM_MUL_2);
    z2 ^ (z2 >> 31)
}

/// A stateless word from a seed and an index (a splitmix-style mix).
fn scramble(seed: u64, i: u64) -> (r: u64)
    ensures
        r == spec_scramble(seed, i),
{
    let z = seed.wrapping_add(i.wrapping_mul(crate::random::SM_GAMMA));
    let z1 = (z ^ (z >> 30)).wrapping_mul(crate::random::SM_MUL_1);
    let z2 = (z1 ^ (z1 >> 27)).wrapping_mul(crate::random::SM_MUL_2);
    z2 ^ (z2 >> 31)
}

/// Rescales the kernel linearly from one size to another over a number
/// of steps.
#[derive(Clone, Copy, Debug, PartialEq, Eq, Structural)]
pub struct TransitionBrushMutation {
    pub value_from: usize,
    pub value_to: usize,
    pub overall_steps: usize,
    pub steps: usize,
}

impl TransitionBrushMutation {
    /// A transition from `value_from` to `value_to` over `overall_steps`
    /// steps.
    pub fn new(value_from: usize, value_to: usize, overall_steps: usize) -> (r: Self)
        ensures
            r.value_from == value_from,
            r.value_to == value_to,
            r.overall_steps == overall_steps,
            r.steps == overall_steps,
    {
        TransitionBrushMutation { value_from, value_to, overall_steps, steps: overall_steps }
    }
}

impl TransitionBrushMutation {
    /// One step of the transformation: the kernel takes the linearly
    /// interpolated size of this step, square-shaped.
    pub fn apply(&mut self, mutant: &mut Kernel) -> (r: MutationState)
        ensures
            final(mutant).wf() || *final(mutant) == *old(mutant),
            (old(self).steps == 0 || old(self).overall_steps == 0) ==> r == MutationState::Finished
                && *final(self) == *old(self) && *final(mutant) == *old(mutant),
            (old(self).steps > 0 && old(self).overall_steps > 0) ==> ({
                let current = if old(self).steps <= old(self).overall_steps {
                    old(self).overall_steps - old(self).steps
                } else {
                    0int
                };
                &&& r == MutationState::Processing
                &&& final(self).steps == old(self).steps - 1
                &&& final(mutant).wf()
                &&& final(mutant).size as int == spec_interpolated_size(
                    old(self).value_from as int,
                    old(self).value_to as int,
                    current,
                    old(self).overall_steps as int,
                )
                &&& final(mutant).circularity == 0
            }),
    {
        if self.steps == 0 || self.overall_steps == 0 {
            return MutationState::Finished;
        }
        let current = if self.steps <= self.overall_steps {
            self.overall_steps - self.steps
        } else {
            0
        };
        let size = interpolate_size(self.value_from, self.value_to, current, self.overall_steps);
        *mutant = Kernel::new(size, 0);
        self.steps = self.steps - 1;
        MutationState::Processing
    }
}

impl Mutator<Kernel> for TransitionBrushMutation {
    open spec fn initial(self) -> Self {
        TransitionBrushMutation { steps: self.overall_steps, ..self }
    }

    fn mutate(&mut self, mutant: &mut Kernel) -> MutationState {
        self.apply(mutant)
    }

    fn reset(&mut self) {
        self.steps = self.overall_steps;
    }
}

/// Swells the kernel towards a climax size and shrinks it back.
#[derive(Clone, Copy, Debug, PartialEq, Eq, Structural)]
pub struct PulseBrushMutation {
    pub value_border: usize,
    pub value_climax: usize,
    pub overall_steps: usize,
    pub steps: usize,
}

impl PulseBrushMutation {
    /// A pulse from `value_min` up to `value_max` and back over
    /// `overall_steps` steps.
    pub fn new(value_min: usize, value_max: usize, overall_steps: usize) -> (r: Self)
        ensures
            r.value_border == value_min,
            r.value_climax == value_max,
            r.overall_steps == overall_steps,
            r.steps == overall_steps,
    {
        PulseBrushMutation {
            value_border: value_min,
            value_climax: value_max,
            overall_steps,
            steps: overall_steps,
        }
    }
}

impl PulseBrushMutation {
    /// One step of the transformation: the kernel swells towards the
    /// climax size over the first half and shrinks back over the second,
    /// square-shaped.
    pub fn apply(&mut self, mutant: &mut Kernel) -> (r: MutationState)
        ensures
            final(mutant).wf() || *final(mutant) == *old(mutant),
            (old(self).steps == 0 || old(self).overall_steps == 0) ==> r == MutationState::Finished
                && *final(self) == *old(self) && *final(mutant) == *old(mutant),
            (old(self).steps > 0 && old(self).overall_steps > 0) ==> ({
                let current = if old(self).steps <= old(self).overall_steps {
                    old(self).overall_steps - old(self).steps
                } else {
                    0int
                };
                let half = old(self).overall_steps as int / 2;
                &&& r == MutationState::Processing
                &&& final(self).steps == old(self).steps - 1
                &&& final(mutant).wf()
                &&& final(mutant).size as int == (if current <= half {
                    spec_interpolated_size(
                        old(self).value_border as int,
                        old(self).value_climax as int,
                        current,
                        half + 1,
                    )
                } else {
                    spec_interpolated_size(
                        old(self).value_climax as int,
                        old(self).value_border as int,
                        current - half,
                        half + 1,
                    )
                })
                &&& final(mutant).circularity == 0
            }),
    {
        if self.steps == 0 || self.overall_steps == 0 {
            return MutationState::Finished;
        }
        let current = if self.steps <= self.overall_steps {
            self.overall_steps - self.steps
        } else {
            0
        };
        let half = self.overall_steps / 2;
        let size = if current <= half {
            interpolate_size(self.value_border, self.value_climax, current, half + 1)
        } else {
            interpolate_size(self.value_climax, self.value_border, current - half, half + 1)
        };
        *mutant = Kernel::new(size, 0);
        self.steps = self.steps - 1;
        MutationState::Processing
    }
}

impl Mutator<Kernel> for PulseBrushMutation {
    open spec fn initial(self) -> Self {
        PulseBrushMutation { steps: self.overall_steps, ..self }
    }

    fn mutate(&mut self, mutant: &mut Kernel) -> MutationState {
        self.apply(mutant)
    }

    fn reset(&mut self) {
        self.steps = self.overall_steps;
    }
}

/// The kernel size `current / overall` of the way from `from` to `to`,
/// over the clamped operands the implementation works with.
pub open spec fn spec_interpolated_size(from: int, to: int, current: int, overall: int) -> int {
    let f = crate::walker::spec_clamp(from, 1, crate::kernel::MAX_KERNEL_SIZE as int);
    let t = crate::walker::spec_clamp(to, 1, crate::kernel::MAX_KERNEL_SIZE as int);
    let o2 = if overall > 1_000_000 {
        1_000_000int
    } else {
        overall
    };
    let cur0 = if current > o2 {
        o2
    } else {
        current
    };
    let span = if t >= f {
        t - f
    } else {
        f - t
    };
    let delta = cur0 * span / o2;
    if t >= f {
        f + delta
    } else {
        f - delta
    }
}

/// The kernel size `current / overall` of the way from `from` to `to`,
/// clamped to the accepted kernel sizes.
fn interpolate_size(from: usize, to: usize, current: usize, overall: usize) -> (r: usize)
    requires
        overall >= 1,
    ensures
        1 <= r <= crate::kernel::MAX_KERNEL_SIZE,
        r as int == spec_interpolated_size(from as int, to as int, current as int, overall as int),
{
    let f = clamp_kernel(from);
    let t = clamp_kernel(to);
    let o2: usize = if overall > 1_000_000 {
        1_000_000
    } else {
        overall
    };
    let cur = if current > o2 {
        o2
    } else {
        current
    };
    let span = if t >= f {
        t - f
    } else {
        f - t
    };
    proof {
        assert(cur * span <= 100_000_000) by (nonlinear_arith)
            requires
                cur <= 1_000_000,
                span <= 100,
        ;
        crate::dist::lemma_mul_div_le(cur as int, span as int, o2 as int);
    }
    let delta = cur * span / o2;
    if t >= f {
        f + delta
    } else {
        f - delta
    }
}

/// Clamp a size to the accepted kernel sizes.
fn clamp_kernel(v: usize) -> (r: usize)
    ensures
        1 <= r <= crate::kernel::MAX_KERNEL_SIZE,
        r == if v < 1 {
            1
        } else if v > crate::kernel::MAX_KERNEL_SIZE {
            crate::kernel::MAX_KERNEL_SIZE
        } else {
            v
        },
{
    if v < 1 {
        1
    } else if v > crate::kernel::MAX_KERNEL_SIZE {
        crate::kernel::MAX_KERNEL_SIZE
    } else {
        v
    }
}

/// One tagged walker-targeting mutation inside a loop.
#[derive(Clone, Copy, Debug, PartialEq, Eq, Structural)]
pub enum LoopMutation {
    Straight(StraightWalkerMutation),
    Left(LeftWalkerMutation),
    Right(RightWalkerMutation),
    Backwards(BackwardsWalkerMutation),
    Randomized(RandomWalkerMutation),
}

/// An ordered loop of walker mutations.  A bounded loop consumes its
/// mutators in order, one step per call; an endless loop resets and
/// restarts after the last mutator finishes.
#[derive(Clone, Debug)]
pub struct MutationLoop {
    pub mutations: Vec<LoopMutation>,
    pub index: usize,
    pub endless: bool,
}

impl MutationLoop {
    /// A loop over the given mutations.
    pub fn new(mutations: Vec<LoopMutation>, endless: bool) -> (r: Self)
        ensures
            r.mutations@ == mutations@,
            r.index == 0,
            r.endless == endless,
    {
        MutationLoop { mutations, index: 0, endless }
    }

    /// Run the active mutator for one step, advancing past finished
    /// ones.  Only the walker's pending override changes.
    pub fn advance(&mut self, walker: &mut Walker)
        ensures
            *final(walker) == (Walker { next_state: final(walker).next_state, ..*old(walker) }),
            final(self).mutations@.len() == old(self).mutations@.len(),
            final(self).endless == old(self).endless,
            old(self).mutations@.len() == 0 ==> *final(self) == *old(self) && *final(walker)
                == *old(walker),
            (!old(self).endless && old(self).index >= old(self).mutations@.len() && old(self).mutations@.len() > 0) ==> *final(self) == *old(self) && *final(walker) == *old(walker),
            final(self).index == old(self).index || final(self).index == old(self).index + 1 || (
            old(self).endless && final(self).index <= 1),
    {
        let n = self.mutations.len();
        if n == 0 {
            return ;
        }
        if self.index >= n {
            if self.endless {
                self.index = 0;
            } else {
                return ;
            }
        }
        let mut m = self.mutations[self.index];
        let st = match m {
            LoopMutation::Straight(ref mut s) => s.apply(walker),
            LoopMutation::Left(ref mut s) => s.apply(walker),
            LoopMutation::Right(ref mut s) => s.apply(walker),
            LoopMutation::Backwards(ref mut s) => s.apply(walker),
            LoopMutation::Randomized(ref mut s) => s.apply(walker),
        };
        match st {
            MutationState::Processing => {
                self.mutations.set(self.index, m);
            },
            MutationState::Finished => {
                // Reset the finished mutator so an endless loop can reuse
                // it, then move on.
                let m2 = match m {
                    LoopMutation::Straight(s) => LoopMutation::Straight(
                        StraightWalkerMutation::new(s.overall_steps),
                    ),
                    LoopMutation::Left(s) => LoopMutation::Left(
                        LeftWalkerMutation::new(s.overall_steps),
                    ),
                    LoopMutation::Right(s) => LoopMutation::Right(
                        RightWalkerMutation::new(s.overall_steps),
                    ),
                    LoopMutation::Backwards(s) => LoopMutation::Backwards(
                        BackwardsWalkerMutation::new(s.overall_steps),
                    ),
                    LoopMutation::Randomized(s) => LoopMutation::Randomized(
                        RandomWalkerMutation::new(s.overall_steps, s.seed),
                    ),
                };
                self.mutations.set(self.index, m2);
                self.index = self.index + 1;
            },
        }
    }
}

} // verus!
