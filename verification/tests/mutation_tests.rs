use mapgen_core::config::{GeneratorParams, WalkerParams};
use mapgen_core::generator::Generator;
use mapgen_core::kernel::Kernel;
use mapgen_core::mutations::{
    BackwardsWalkerMutation, LeftWalkerMutation, LoopMutation, MutationLoop, MutationState,
    Mutator, RandomWalkerMutation, RightWalkerMutation, StraightWalkerMutation,
    TransitionBrushMutation,
};
use mapgen_core::mutators::{Mutation, PulseMutation, TransitionMutation};
use mapgen_core::position::Direction;
use mapgen_core::walker::NormalWaypoints;

fn test_walker() -> mapgen_core::walker::Walker {
    let wps = NormalWaypoints::from_coords(vec![(0, 500), (1000, 500)]);
    let gen = Generator::new(
        GeneratorParams::easy(),
        &WalkerParams::easy(),
        &wps,
        7,
        120,
        80,
    )
    .unwrap();
    gen.walker
}

#[test]
fn straight_mutation_forces_the_preferred_direction() {
    let mut w = test_walker();
    let mut m = StraightWalkerMutation::new(3);
    let st = m.mutate(&mut w);
    assert_eq!(st, MutationState::Processing);
    let next = w.next_state.unwrap();
    assert_eq!(next.direction, w.preferred_state().direction);
}

#[test]
fn left_and_right_mutations_turn_off_the_preferred_direction() {
    let mut w = test_walker();
    let pref = w.preferred_state().direction;
    let mut l = LeftWalkerMutation::new(1);
    let _ = l.mutate(&mut w);
    assert_eq!(w.next_state.unwrap().direction, pref.prev());
    let mut r = RightWalkerMutation::new(1);
    let _ = r.mutate(&mut w);
    assert_eq!(w.next_state.unwrap().direction, pref.next());
    let mut b = BackwardsWalkerMutation::new(1);
    let _ = b.mutate(&mut w);
    assert_eq!(w.next_state.unwrap().direction, pref.backwards());
}

#[test]
fn exhausted_mutation_reports_finished() {
    let mut w = test_walker();
    let mut m = StraightWalkerMutation::new(1);
    assert_eq!(m.mutate(&mut w), MutationState::Processing);
    assert_eq!(m.mutate(&mut w), MutationState::Finished);
}

#[test]
fn reset_returns_a_mutation_to_its_initial_state() {
    let mut w = test_walker();
    let mut m = StraightWalkerMutation::new(4);
    let _ = m.mutate(&mut w);
    let _ = m.mutate(&mut w);
    assert_eq!(m.steps, 2);
    m.reset();
    assert_eq!(m.steps, 4);
    assert_eq!(m, StraightWalkerMutation::new(4));
}

#[test]
fn random_mutation_is_deterministic_per_seed() {
    let mut w1 = test_walker();
    let mut w2 = test_walker();
    let mut m1 = RandomWalkerMutation::new(5, 99);
    let mut m2 = RandomWalkerMutation::new(5, 99);
    let _ = m1.mutate(&mut w1);
    let _ = m2.mutate(&mut w2);
    assert_eq!(w1.next_state.unwrap(), w2.next_state.unwrap());
}

#[test]
fn brush_transition_rescales_the_kernel() {
    let mut k = Kernel::new(3, 0);
    let mut m = TransitionBrushMutation::new(3, 9, 6);
    for _ in 0..6 {
        let st = m.mutate(&mut k);
        assert_eq!(st, MutationState::Processing);
    }
    assert_eq!(m.mutate(&mut k), MutationState::Finished);
    assert!(k.size > 3 && k.size <= 9);
}

#[test]
fn bounded_loop_consumes_mutations_in_order() {
    let mut w = test_walker();
    let mut ml = MutationLoop::new(
        vec![
            LoopMutation::Straight(StraightWalkerMutation::new(1)),
            LoopMutation::Left(LeftWalkerMutation::new(1)),
        ],
        false,
    );
    let pref = w.preferred_state().direction;
    ml.advance(&mut w);
    assert_eq!(w.next_state.unwrap().direction, pref);
    // The first mutator's single step is spent; the next call finishes
    // it and moves on, the one after runs the left turn.
    ml.advance(&mut w);
    ml.advance(&mut w);
    assert_eq!(w.next_state.unwrap().direction, pref.prev());
}

#[test]
fn endless_loop_wraps_around() {
    let mut w = test_walker();
    let mut ml = MutationLoop::new(
        vec![LoopMutation::Straight(StraightWalkerMutation::new(1))],
        true,
    );
    for _ in 0..10 {
        ml.advance(&mut w);
    }
    // Still driving overrides after several wraps.
    assert!(w.next_state.is_some());
}

#[test]
fn mutated_steps_still_generate() {
    let wps = NormalWaypoints::from_coords(vec![(0, 500), (1000, 500)]);
    let mut gen = Generator::new(
        GeneratorParams::easy(),
        &WalkerParams::easy(),
        &wps,
        3,
        120,
        80,
    )
    .unwrap();
    let mut ml = MutationLoop::new(
        vec![LoopMutation::Straight(StraightWalkerMutation::new(2))],
        true,
    );
    for _ in 0..20 {
        if gen.walker.finished {
            break;
        }
        gen.step_mutated(&mut ml).unwrap();
    }
    assert!(gen.walker.get_current_step() > 0);
}

#[test]
fn stage_mutations_resize_the_walker_kernels() {
    let wps = NormalWaypoints::from_coords(vec![(0, 500), (1000, 500)]);
    let mut gen = Generator::new(
        GeneratorParams::easy(),
        &WalkerParams::easy(),
        &wps,
        3,
        120,
        80,
    )
    .unwrap();
    let mut t = TransitionMutation { value_from: 3, value_to: 9, overall_steps: 4 };
    let st = t.mutate_step(&mut gen.walker, &mut gen.map);
    assert_eq!(st, MutationState::Processing);
    assert!(gen.walker.inner_kernel.size >= 1);
    let mut p = PulseMutation { value_min: 3, value_max: 7, steps: 2 };
    let st2 = p.mutate_step(&mut gen.walker, &mut gen.map);
    assert_eq!(st2, MutationState::Processing);
    assert!(gen.walker.outer_kernel.size == gen.walker.inner_kernel.size + 2);
}

#[test]
fn direction_cycle_is_consistent() {
    assert_eq!(Direction::Up.next(), Direction::Right);
    assert_eq!(Direction::Right.next(), Direction::Down);
    assert_eq!(Direction::Down.next(), Direction::Left);
    assert_eq!(Direction::Left.next(), Direction::Up);
    assert_eq!(Direction::Up.prev(), Direction::Left);
    assert_eq!(Direction::Up.backwards(), Direction::Down);
    assert_eq!(Direction::Left.backwards(), Direction::Right);
    let mut d = Direction::Up;
    for _ in 0..4 {
        d = d.next();
    }
    assert_eq!(d, Direction::Up);
}
