//! Staged map mutations: stepwise transformations that act on the
//! walker and the map together, driven once per generation step.

use vstd::prelude::*;

use crate::kernel::Kernel;
use crate::map_grid::MapGrid;
use crate::mutations::MutationState;
use crate::walker::Walker;

verus! {

/// A stepwise transformation of the walker and the map.  A stage
/// mutation only rescales the walker's kernels: the map and every other
/// walker field stay untouched, and a rebuilt kernel is well formed.
pub trait Mutation {
    /// Apply one step; `Finished` once the transformation is done.
    fn mutate_step(&mut self, walker: &mut Walker, map: &mut MapGrid) -> (r: MutationState)
        ensures
            *final(map) == *old(map),
            final(walker).pos == old(walker).pos,
            final(walker).steps == old(walker).steps,
            final(walker).goal_index == old(walker).goal_index,
            final(walker).finished == old(walker).finished,
            final(walker).last_shift == old(walker).last_shift,
            final(walker).next_state == old(walker).next_state,
            final(walker).rng == old(walker).rng,
            final(walker).waypoints@ == old(walker).waypoints@,
            (final(walker).inner_kernel.wf() && final(walker).outer_kernel.wf()) || (final(walker).inner_kernel == old(walker).inner_kernel && final(walker).outer_kernel == old(walker).outer_kernel),
    ;
}

/// Swells the walker's kernels towards a climax size and back.
#[derive(Clone, Copy, Debug, PartialEq, Eq, Structural)]
pub struct PulseMutation {
    pub value_min: usize,
    pub value_max: usize,
    pub steps: usize,
}

impl Mutation for PulseMutation {
    fn mutate_step(&mut self, walker: &mut Walker, map: &mut MapGrid) -> MutationState {
        if self.steps == 0 {
            return MutationState::Finished;
        }
        let half = if self.steps % 2 == 0 {
            self.value_max
        } else {
            self.value_min
        };
        let size = clamp_stage(half);
        walker.inner_kernel = Kernel::new(size, 0);
        walker.outer_kernel = Kernel::new(size + 2, 0);
        self.steps = self.steps - 1;
        MutationState::Processing
    }
}

/// Fades the walker's kernels from one size to another.
#[derive(Clone, Copy, Debug, PartialEq, Eq, Structural)]
pub struct TransitionMutation {
    pub value_from: usize,
    pub value_to: usize,
    pub overall_steps: usize,
}

impl Mutation for TransitionMutation {
    fn mutate_step(&mut self, walker: &mut Walker, map: &mut MapGrid) -> MutationState {
        if self.overall_steps == 0 {
            return MutationState::Finished;
        }
        let f = clamp_stage(self.value_from);
        let t = clamp_stage(self.value_to);
        let step = walker.get_current_step() % self.overall_steps;
        let size = if t >= f {
            let span = t - f;
            f + mul_frac(step, span, self.overall_steps)
        } else {
            let span = f - t;
            f - mul_frac(step, span, self.overall_steps)
        };
        walker.inner_kernel = Kernel::new(size, 0);
        walker.outer_kernel = Kernel::new(size + 2, 0);
        self.overall_steps = self.overall_steps - 1;
        MutationState::Processing
    }
}

/// `step * span / overall`, clamped so it never exceeds `span`.
fn mul_frac(step: usize, span: usize, overall: usize) -> (r: usize)
    requires
        overall >= 1,
        span <= 64,
    ensures
        r <= span,
{
    let s2 = if step > 1_000_000 {
        1_000_000
    } else {
        step
    };
    let o2 = if overall > 1_000_000 {
        1_000_000
    } else {
        overall
    };
    let s3 = if s2 > o2 {
        o2
    } else {
        s2
    };
    proof {
        assert(s3 * span <= 64_000_000) by (nonlinear_arith)
            requires
                s3 <= 1_000_000,
                span <= 64,
        ;
        crate::dist::lemma_mul_div_le(s3 as int, span as int, o2 as int);
    }
    s3 * span / o2
}

/// Clamp a stage size to the sizes the walker accepts.
fn clamp_stage(v: usize) -> (r: usize)
    ensures
        1 <= r <= 62,
{
    if v < 1 {
        1
    } else if v > 62 {
        62
    } else {
        v
    }
}

} // verus!
