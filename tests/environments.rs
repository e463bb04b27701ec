use reinforcement_learning::environment::gridworld::{
    GridWorldAction, GridWorldDefinition, StateEffect,
};
use reinforcement_learning::environment::m_wrapper::{MAction, MWrapper};
use reinforcement_learning::environment::t_corridor::{TCorridor, TCorridorAction, TCorridorState};
use reinforcement_learning::environment::Environment;
use reinforcement_learning::gridworld_definitions::cliff;

#[test]
fn displacement_of_each_action() {
    assert_eq!(GridWorldAction::Left.displacement(), (-1, 0));
    assert_eq!(GridWorldAction::Right.displacement(), (1, 0));
    assert_eq!(GridWorldAction::Up.displacement(), (0, 1));
    assert_eq!(GridWorldAction::Down.displacement(), (0, -1));
}

#[test]
fn cliff_walk_along_the_edge() {
    let mut world = cliff(10, 5).world();
    assert_eq!(world.current_state(), (0, 0));
    assert_eq!(world.get_terminal(), (9, 0));
    for x in 1..9 {
        assert_eq!(world.take_action(GridWorldAction::Right), Some(((x, 0), -100)));
    }
    assert_eq!(world.take_action(GridWorldAction::Up), Some(((8, 1), -1)));
    assert_eq!(world.take_action(GridWorldAction::Right), Some(((9, 1), -1)));
    assert!(!world.terminated());
    assert_eq!(world.take_action(GridWorldAction::Down), Some(((9, 0), 0)));
    assert!(world.terminated());
    assert_eq!(world.take_action(GridWorldAction::Left), None);
    assert_eq!(world.current_state(), (9, 0));
}

#[test]
fn cliff_safe_path_costs_one_per_step() {
    let mut world = cliff(10, 5).world();
    let mut gain = 0;
    gain += world.take_action(GridWorldAction::Up).unwrap().1;
    for _ in 0..9 {
        gain += world.take_action(GridWorldAction::Right).unwrap().1;
    }
    let last = world.take_action(GridWorldAction::Down).unwrap();
    assert_eq!(last, ((9, 0), 0));
    gain += last.1;
    assert_eq!(gain, -10);
}

#[test]
fn moves_against_the_border_do_nothing() {
    let mut world = GridWorldDefinition::new((3, 2), (0, 0), (2, 1), -1).world();
    assert_eq!(world.take_action(GridWorldAction::Left), Some(((0, 0), -1)));
    assert_eq!(world.take_action(GridWorldAction::Down), Some(((0, 0), -1)));
    assert_eq!(world.take_action(GridWorldAction::Up), Some(((0, 1), -1)));
    assert_eq!(world.take_action(GridWorldAction::Up), Some(((0, 1), -1)));
}

#[test]
fn state_stays_inside_the_grid() {
    let mut definition = GridWorldDefinition::new((4, 3), (1, 1), (5, 5), -1);
    definition.apply_effect((2, 0), (1, 3), StateEffect::MoveBy((100, -100)));
    definition.apply_effect((0, 2), (1, 1), StateEffect::MoveBy((-7, 9)));
    let mut world = definition.world();
    let actions = [
        GridWorldAction::Right,
        GridWorldAction::Up,
        GridWorldAction::Up,
        GridWorldAction::Left,
        GridWorldAction::Left,
        GridWorldAction::Up,
        GridWorldAction::Right,
        GridWorldAction::Down,
        GridWorldAction::Down,
        GridWorldAction::Down,
    ];
    for i in 0..200 {
        let (s, _) = world.take_action(actions[(i * 7) % actions.len()]).unwrap();
        assert!(s.0 >= 0 && s.0 < 4 && s.1 >= 0 && s.1 < 3);
        assert_eq!(world.current_state(), s);
    }
}

#[test]
fn terminal_cell_pays_zero_over_a_reward_override() {
    let mut definition = GridWorldDefinition::new((3, 1), (0, 0), (2, 0), -1);
    definition.apply_reward((0, 0), (3, 1), 50);
    let mut world = definition.world();
    assert_eq!(world.take_action(GridWorldAction::Right), Some(((1, 0), 50)));
    assert_eq!(world.take_action(GridWorldAction::Right), Some(((2, 0), 0)));
    assert!(world.is_terminal((2, 0)));
    assert!(!world.is_terminal((1, 0)));
}

#[test]
fn later_reward_override_wins() {
    let mut definition = GridWorldDefinition::new((5, 1), (0, 0), (4, 0), -1);
    definition.apply_reward((1, 0), (3, 1), -10);
    definition.apply_reward((2, 0), (1, 1), 7);
    let mut world = definition.world();
    assert_eq!(world.take_action(GridWorldAction::Right), Some(((1, 0), -10)));
    assert_eq!(world.take_action(GridWorldAction::Right), Some(((2, 0), 7)));
    assert_eq!(world.take_action(GridWorldAction::Right), Some(((3, 0), -10)));
}

#[test]
fn empty_rectangle_overrides_nothing() {
    let mut definition = GridWorldDefinition::new((3, 1), (0, 0), (2, 0), -1);
    definition.apply_reward((1, 0), (0, 1), -10);
    definition.apply_reward((1, 0), (-2, 1), -10);
    let mut world = definition.world();
    assert_eq!(world.take_action(GridWorldAction::Right), Some(((1, 0), -1)));
}

#[test]
fn back_to_start_effect() {
    let mut definition = GridWorldDefinition::new((4, 1), (0, 0), (3, 0), -1);
    definition.apply_reward((2, 0), (1, 1), -100);
    definition.apply_effect((2, 0), (1, 1), StateEffect::BackToStart);
    let mut world = definition.world();
    assert_eq!(world.take_action(GridWorldAction::Right), Some(((1, 0), -1)));
    assert_eq!(world.take_action(GridWorldAction::Right), Some(((0, 0), -100)));
    assert_eq!(world.current_state(), (0, 0));
}

#[test]
fn move_by_effect_is_clamped_and_can_reach_the_end() {
    let mut definition = GridWorldDefinition::new((5, 2), (0, 0), (4, 0), -1);
    definition.apply_reward((1, 0), (1, 1), -3);
    definition.apply_effect((1, 0), (1, 1), StateEffect::MoveBy((10, 0)));
    let mut world = definition.world();
    assert_eq!(world.take_action(GridWorldAction::Right), Some(((4, 0), 0)));
    assert!(world.terminated());
}

#[test]
fn grid_offers_four_actions() {
    let world = cliff(4, 2).world();
    assert_eq!(
        world.available_actions((1, 1)),
        vec![
            GridWorldAction::Left,
            GridWorldAction::Right,
            GridWorldAction::Up,
            GridWorldAction::Down
        ]
    );
}

#[test]
fn corridor_trap_upper() {
    let mut c = TCorridor::with_seed(0, 1);
    assert_eq!(
        c.take_action_given(TCorridorAction::Forward, true),
        Some((TCorridorState::ObserveU, -5))
    );
    assert_eq!(
        c.take_action_given(TCorridorAction::Forward, false),
        Some((TCorridorState::Split, -5))
    );
    assert_eq!(
        c.take_action_given(TCorridorAction::Up, false),
        Some((TCorridorState::Terminal, -100))
    );
    assert!(c.terminated());
    assert_eq!(c.take_action_given(TCorridorAction::Up, false), None);
}

#[test]
fn corridor_trap_upper_escape_down() {
    let mut c = TCorridor::with_seed(0, 1);
    c.take_action_given(TCorridorAction::Forward, true).unwrap();
    c.take_action_given(TCorridorAction::Forward, true).unwrap();
    assert_eq!(
        c.take_action_given(TCorridorAction::Down, true),
        Some((TCorridorState::Terminal, 100))
    );
}

#[test]
fn corridor_trap_lower() {
    let mut c = TCorridor::with_seed(0, 1);
    assert_eq!(
        c.take_action_given(TCorridorAction::Forward, false),
        Some((TCorridorState::ObserveL, -5))
    );
    assert_eq!(
        c.take_action_given(TCorridorAction::Forward, true),
        Some((TCorridorState::Split, -5))
    );
    assert_eq!(
        c.take_action_given(TCorridorAction::Down, true),
        Some((TCorridorState::Terminal, -100))
    );
    let mut d = TCorridor::with_seed(0, 1);
    d.take_action_given(TCorridorAction::Forward, false).unwrap();
    d.take_action_given(TCorridorAction::Forward, false).unwrap();
    assert_eq!(
        d.take_action_given(TCorridorAction::Up, true),
        Some((TCorridorState::Terminal, 100))
    );
}

#[test]
fn corridor_side_is_kept_for_the_episode() {
    let mut c = TCorridor::with_seed(2, 3);
    c.take_action_given(TCorridorAction::Forward, true).unwrap();
    assert_eq!(
        c.take_action_given(TCorridorAction::Backward, false),
        Some((TCorridorState::Start, -5))
    );
    assert_eq!(
        c.take_action_given(TCorridorAction::Forward, false),
        Some((TCorridorState::ObserveU, -5))
    );
    assert_eq!(
        c.take_action_given(TCorridorAction::Forward, false),
        Some((TCorridorState::Corridor(1), -5))
    );
    assert_eq!(
        c.take_action_given(TCorridorAction::Up, false),
        Some((TCorridorState::Corridor(1), -5))
    );
    assert_eq!(
        c.take_action_given(TCorridorAction::Forward, false),
        Some((TCorridorState::Corridor(2), -5))
    );
    assert_eq!(
        c.take_action_given(TCorridorAction::Forward, false),
        Some((TCorridorState::Split, -5))
    );
    assert_eq!(
        c.take_action_given(TCorridorAction::Backward, false),
        Some((TCorridorState::ObserveU, -5))
    );
}

#[test]
fn corridor_sides_are_drawn_about_evenly() {
    let mut upper = 0;
    let trials = 2000;
    for seed in 0..trials {
        let mut c = TCorridor::with_seed(0, seed);
        let (s, r) = c.take_action(TCorridorAction::Forward).unwrap();
        assert_eq!(r, -5);
        assert!(s == TCorridorState::ObserveU || s == TCorridorState::ObserveL);
        if s == TCorridorState::ObserveU {
            upper += 1;
        }
        assert_eq!(c.take_action(TCorridorAction::Forward), Some((TCorridorState::Split, -5)));
        let (t, r) = c.take_action(TCorridorAction::Up).unwrap();
        assert_eq!(t, TCorridorState::Terminal);
        assert_eq!(r, if s == TCorridorState::ObserveU { -100 } else { 100 });
    }
    assert!(upper > 850 && upper < 1150, "upper drawn {} times", upper);
}

#[test]
fn corridor_entropy_seeded_draws_a_side() {
    let mut c = TCorridor::new(0);
    let (s, _) = c.take_action(TCorridorAction::Forward).unwrap();
    assert!(s == TCorridorState::ObserveU || s == TCorridorState::ObserveL);
}

#[test]
fn corridor_actions() {
    let c = TCorridor::with_seed(3, 0);
    assert_eq!(c.available_actions(TCorridorState::Start), vec![TCorridorAction::Forward]);
    assert_eq!(c.available_actions(TCorridorState::Corridor(2)), vec![TCorridorAction::Forward]);
    assert_eq!(
        c.available_actions(TCorridorState::Split),
        vec![TCorridorAction::Up, TCorridorAction::Down]
    );
    assert!(c.is_terminal(TCorridorState::Terminal));
    assert_eq!(c.get_terminal(), TCorridorState::Terminal);
}

#[test]
fn memory_bit_values() {
    assert_eq!(MAction::Flip.bit_value(0), 1);
    assert_eq!(MAction::Flip.bit_value(1), 0);
    assert_eq!(MAction::Noop.bit_value(0), 0);
    assert_eq!(MAction::Noop.bit_value(1), 1);
}

#[test]
fn wrapper_doubles_the_actions() {
    let w = MWrapper::new(TCorridor::with_seed(0, 5));
    assert_eq!(
        w.available_actions((TCorridorState::Split, 1)),
        vec![
            (TCorridorAction::Up, MAction::Flip),
            (TCorridorAction::Up, MAction::Noop),
            (TCorridorAction::Down, MAction::Flip),
            (TCorridorAction::Down, MAction::Noop),
        ]
    );
}

#[test]
fn wrapper_memory_and_sentinel() {
    let mut w = MWrapper::new(TCorridor::with_seed(0, 5));
    assert_eq!(w.current_state(), (TCorridorState::Start, 0));
    let ((s, m), r) = w.take_action((TCorridorAction::Forward, MAction::Flip)).unwrap();
    assert!(s == TCorridorState::ObserveU || s == TCorridorState::ObserveL);
    assert_eq!((m, r), (1, -5));
    assert_eq!(
        w.take_action((TCorridorAction::Forward, MAction::Noop)),
        Some(((TCorridorState::Split, 1), -5))
    );
    assert!(!w.terminated());
    let ((t, m), _) = w.take_action((TCorridorAction::Up, MAction::Flip)).unwrap();
    assert_eq!((t, m), (TCorridorState::Terminal, 2));
    assert!(w.terminated());
    assert_eq!(w.current_state(), (TCorridorState::Terminal, 2));
    assert_eq!(w.take_action((TCorridorAction::Forward, MAction::Flip)), None);
    assert_eq!(w.current_state(), (TCorridorState::Terminal, 2));
    assert!(w.is_terminal((TCorridorState::Terminal, 2)));
    assert!(!w.is_terminal((TCorridorState::Split, 1)));
    assert_eq!(w.get_terminal(), (TCorridorState::Terminal, 2));
}

#[test]
fn wrapper_flip_twice_restores_the_bit() {
    let mut w = MWrapper::new(TCorridor::with_seed(1, 9));
    w.take_action((TCorridorAction::Forward, MAction::Flip)).unwrap();
    let ((_, m), _) = w.take_action((TCorridorAction::Forward, MAction::Flip)).unwrap();
    assert_eq!(m, 0);
    let ((s, m), _) = w.take_action((TCorridorAction::Forward, MAction::Noop)).unwrap();
    assert_eq!((s, m), (TCorridorState::Split, 0));
}
