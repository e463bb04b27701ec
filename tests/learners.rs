use rand::rngs::StdRng;
use rand::SeedableRng;

use reinforcement_learning::environment::gridworld::{GridWorld, GridWorldAction};
use reinforcement_learning::environment::m_wrapper::MWrapper;
use reinforcement_learning::environment::t_corridor::{TCorridor, TCorridorAction, TCorridorState};
use reinforcement_learning::environment::Environment;
use reinforcement_learning::gridworld_definitions::cliff;
use reinforcement_learning::learner::{
    greedy_index, one_step_target, select_index, stable_desc_order, td_update, DynaQ, NStepSarsa,
    QLearning, Sarsa,
    TabularLearner, TabularLearnerConfig, TabularLearnerData, RATE_ONE, VALUE_ONE,
};

fn config(alpha: u32, epsilon: u32, gamma: u32, initial_q: i64) -> TabularLearnerConfig {
    TabularLearnerConfig::new(alpha, epsilon, gamma, initial_q)
}

#[test]
fn td_update_moves_by_alpha() {
    assert_eq!(td_update(0, 10 * VALUE_ONE, 100_000), VALUE_ONE);
    assert_eq!(td_update(5 * VALUE_ONE, 0, 500_000), 2_500_000);
    assert_eq!(td_update(-4, 4, RATE_ONE), 4);
    assert_eq!(td_update(7, 7, 300_000), 7);
}

#[test]
fn td_update_contracts_the_distance() {
    let cases: [(i64, i64, u32); 5] = [
        (0, 1_000_000, 250_000),
        (3_000_000, -1_000_000, 750_000),
        (-8_000_000, -2_000_000, 500_000),
        (123_456_789, 987_654_321, 100_000),
        (0, 3, 500_000),
    ];
    for (v, t, alpha) in cases {
        let n = td_update(v, t, alpha);
        let before = (v - t).abs() as i128;
        let after = (n - t).abs() as i128;
        let one = RATE_ONE as i128;
        let shrunk = (one - alpha as i128) * before;
        assert!(one * after >= shrunk && one * after < shrunk + one);
        assert!(after <= before);
    }
    assert_eq!(td_update(0, 3, 500_000), 1);
}

#[test]
fn td_update_does_not_overflow_at_the_extremes() {
    assert_eq!(td_update(i64::MIN, i64::MAX, RATE_ONE), i64::MAX);
    assert_eq!(td_update(i64::MAX, i64::MIN, RATE_ONE), i64::MIN);
}

#[test]
fn one_step_target_values() {
    assert_eq!(one_step_target(-1, 500_000, 4 * VALUE_ONE), VALUE_ONE);
    assert_eq!(one_step_target(0, 500_000, -3), -1);
    assert_eq!(one_step_target(2, 0, 99 * VALUE_ONE), 2 * VALUE_ONE);
    assert_eq!(one_step_target(1, RATE_ONE, i64::MAX), i64::MAX);
}

#[test]
fn greedy_prefers_the_first_of_equal_values() {
    assert_eq!(greedy_index(&vec![1, 5, 5, 2]), 1);
    assert_eq!(greedy_index(&vec![-3]), 0);
    assert_eq!(greedy_index(&vec![0, 0, 0]), 0);
    assert_eq!(greedy_index(&vec![-9, -2, -7, -2]), 1);
}

#[test]
fn select_index_explores_under_epsilon() {
    let values = vec![1, 5, 5, 2];
    assert_eq!(select_index(&values, 100_000, 50_000, 3), 0);
    assert_eq!(select_index(&values, 100_000, 50_000, 0), 1);
    assert_eq!(select_index(&values, 100_000, 50_000, 1), 2);
    assert_eq!(select_index(&values, 100_000, 50_000, 2), 3);
    assert_eq!(select_index(&values, 100_000, 200_000, 3), 1);
    assert_eq!(select_index(&values, 0, 0, 3), 1);
    assert_eq!(select_index(&values, RATE_ONE, 999_999, 0), 1);
    assert_eq!(select_index(&vec![0, 5], RATE_ONE, 0, 0), 1);
}

#[test]
fn stable_order_by_decreasing_value() {
    assert_eq!(stable_desc_order(&vec![1, 5, 5, 2]), vec![1, 2, 3, 0]);
    assert_eq!(stable_desc_order(&vec![0, 0, 0]), vec![0, 1, 2]);
    assert_eq!(stable_desc_order(&vec![-1, 7, -3, 7, 0]), vec![1, 3, 4, 0, 2]);
    assert_eq!(stable_desc_order(&vec![]), Vec::<usize>::new());
}

#[test]
fn config_accessors() {
    let mut c = config(100_000, 50_000, 800_000, 10 * VALUE_ONE);
    assert_eq!(c.alpha(), 100_000);
    assert_eq!(c.epsilon(), 50_000);
    assert_eq!(c.gamma(), 800_000);
    assert_eq!(c.initial_q(), 10 * VALUE_ONE);
    assert!(!c.debug());
    c.set_epsilon(0);
    c.set_alpha(RATE_ONE);
    c.set_debug(true);
    assert_eq!(c.epsilon(), 0);
    assert_eq!(c.alpha(), RATE_ONE);
    assert!(c.debug());
}

#[test]
fn values_default_and_terminal_is_zero() {
    let c = config(500_000, 0, RATE_ONE, 7);
    let mut data: TabularLearnerData<GridWorld> = TabularLearnerData::new((9, 0));
    assert_eq!(data.value(&c, (1, 1), GridWorldAction::Up), 7);
    data.set_value((9, 0), GridWorldAction::Up, 123);
    data.update(&c, (9, 0), GridWorldAction::Down, 1000);
    assert_eq!(data.value(&c, (9, 0), GridWorldAction::Up), 0);
    assert_eq!(data.value(&c, (9, 0), GridWorldAction::Down), 0);
    data.update(&c, (1, 1), GridWorldAction::Up, 107);
    assert_eq!(data.value(&c, (1, 1), GridWorldAction::Up), 57);
    assert_eq!(data.q.get(&(1, 1), &GridWorldAction::Up), Some(57));
    assert_eq!(data.q.get(&(1, 1), &GridWorldAction::Down), None);
}

#[test]
fn greedy_choice_and_max_value() {
    let c = config(RATE_ONE, 0, RATE_ONE, 0);
    let world = cliff(10, 5).world();
    let mut data: TabularLearnerData<GridWorld> = TabularLearnerData::new((9, 0));
    let mut rng = StdRng::seed_from_u64(4);
    assert_eq!(data.epsilon_greedy(&c, (2, 2), &world, &mut rng), GridWorldAction::Left);
    data.set_value((2, 2), GridWorldAction::Up, 5);
    data.set_value((2, 2), GridWorldAction::Down, 5);
    data.set_value((2, 2), GridWorldAction::Left, -1);
    assert_eq!(data.epsilon_greedy(&c, (2, 2), &world, &mut rng), GridWorldAction::Up);
    assert_eq!(data.max_action_value(&c, (2, 2), &world), 5);
    assert_eq!(data.max_action_value(&c, (9, 0), &world), 0);
}

#[test]
fn full_exploration_stays_among_available_actions() {
    let c = config(RATE_ONE, RATE_ONE, RATE_ONE, 0);
    let corridor = TCorridor::with_seed(0, 1);
    let data: TabularLearnerData<TCorridor> = TabularLearnerData::new(TCorridorState::Terminal);
    let mut rng = StdRng::seed_from_u64(11);
    let mut seen_up = false;
    let mut seen_down = false;
    for _ in 0..200 {
        let a = data.epsilon_greedy(&c, TCorridorState::Split, &corridor, &mut rng);
        assert!(a == TCorridorAction::Up || a == TCorridorAction::Down);
        seen_up |= a == TCorridorAction::Up;
        seen_down |= a == TCorridorAction::Down;
    }
    assert!(seen_up && seen_down);
}

#[test]
fn q_learning_reaches_the_end_of_the_cliff() {
    let c = config(100_000, 100_000, 900_000, 0);
    let mut learner: QLearning<GridWorld> = QLearning::with_seed(c, (9, 0), 17);
    for _ in 0..20 {
        let mut world = cliff(10, 5).world();
        let outcome = learner.episode(&mut world, 200_000);
        assert!(world.terminated());
        assert!(outcome.steps < 200_000);
        assert!(outcome.gain <= -10);
    }
    assert_eq!(learner.data().value(learner.config(), (9, 0), GridWorldAction::Left), 0);
}

#[test]
fn sarsa_reaches_the_end_of_the_cliff() {
    let c = config(100_000, 100_000, 900_000, 0);
    let mut learner: Sarsa<GridWorld> = Sarsa::with_seed(c, (9, 0), 23);
    for _ in 0..20 {
        let mut world = cliff(10, 5).world();
        let outcome = learner.episode(&mut world, 200_000);
        assert!(world.terminated());
        assert!(outcome.steps < 200_000);
        assert!(outcome.gain <= -10);
    }
}

#[test]
fn episode_budget_stops_early() {
    let c = config(100_000, 0, 900_000, 0);
    let mut learner: Sarsa<GridWorld> = Sarsa::with_seed(c, (9, 0), 1);
    let mut world = cliff(10, 5).world();
    let outcome = learner.episode(&mut world, 3);
    assert_eq!(outcome.steps, 3);
    assert!(!world.terminated());
}

#[test]
fn episode_on_a_terminal_environment_does_nothing() {
    let c = config(100_000, 0, 900_000, 0);
    let mut learner: QLearning<GridWorld> = QLearning::with_seed(c, (9, 0), 1);
    let mut world = cliff(2, 1).world();
    world.take_action(GridWorldAction::Right).unwrap();
    assert!(world.terminated());
    let outcome = learner.episode(&mut world, 10);
    assert_eq!((outcome.steps, outcome.gain), (0, 0));
}

#[test]
fn sarsa_step_updates_towards_the_next_pair() {
    let c = config(500_000, 0, RATE_ONE, 0);
    let mut learner: Sarsa<GridWorld> = Sarsa::with_seed(c, (9, 0), 2);
    let mut world = cliff(10, 5).world();
    let (next, next_action, reward) =
        learner.step(&mut world, (0, 0), GridWorldAction::Right).unwrap();
    assert_eq!((next, reward), ((1, 0), -100));
    assert_eq!(next_action, GridWorldAction::Left);
    assert_eq!(
        learner.data.value(&learner.config, (0, 0), GridWorldAction::Right),
        -50 * VALUE_ONE
    );
}

#[test]
fn q_learning_step_bootstraps_on_the_best_value() {
    let c = config(RATE_ONE, 0, 500_000, 0);
    let mut learner: QLearning<GridWorld> = QLearning::with_seed(c, (9, 0), 2);
    learner.data.set_value((0, 1), GridWorldAction::Down, 8 * VALUE_ONE);
    learner.data.set_value((0, 0), GridWorldAction::Up, VALUE_ONE);
    let mut world = cliff(10, 5).world();
    let t = learner.step(&mut world);
    assert_eq!(t.state, (0, 0));
    assert_eq!(t.action, GridWorldAction::Up);
    assert_eq!(t.next_state, (0, 1));
    assert_eq!(t.reward, -1);
    assert_eq!(
        learner.data.value(&learner.config, (0, 0), GridWorldAction::Up),
        3 * VALUE_ONE
    );
}

#[test]
fn n_step_short_episode_flushes_every_pair() {
    let c = config(RATE_ONE, 0, RATE_ONE, 0);
    let mut learner: NStepSarsa<TCorridor> =
        NStepSarsa::with_seed(7, c, TCorridorState::Terminal, 5);
    let mut corridor = TCorridor::with_seed(0, 8);
    let outcome = learner.episode(&mut corridor, 100);
    assert_eq!(outcome.steps, 3);
    assert_eq!(learner.window_len(), 0);
    let last = (outcome.gain + 10) * VALUE_ONE;
    assert!(last == 100 * VALUE_ONE || last == -100 * VALUE_ONE);
    let observed = if last < 0 {
        TCorridorState::ObserveU
    } else {
        TCorridorState::ObserveL
    };
    let data = &learner.data;
    assert_eq!(data.q.get(&TCorridorState::Split, &TCorridorAction::Up), Some(last));
    assert_eq!(
        data.q.get(&observed, &TCorridorAction::Forward),
        Some(last - 5 * VALUE_ONE)
    );
    assert_eq!(
        data.q.get(&TCorridorState::Start, &TCorridorAction::Forward),
        Some(last - 10 * VALUE_ONE)
    );
    assert_eq!(data.q.get(&TCorridorState::Split, &TCorridorAction::Down), None);
}

#[test]
fn n_step_full_window_updates_the_oldest_pair() {
    let c = config(RATE_ONE, 0, 500_000, 0);
    let mut learner: NStepSarsa<TCorridor> =
        NStepSarsa::with_seed(2, c, TCorridorState::Terminal, 5);
    let mut corridor = TCorridor::with_seed(3, 8);
    let mut state = corridor.current_state();
    let mut action = TCorridorAction::Forward;
    for _ in 0..2 {
        let (s, a, r) = learner.step(&mut corridor, state, action).unwrap();
        assert_eq!(r, -5);
        state = s;
        action = a;
    }
    assert_eq!(learner.window_len(), 2);
    assert_eq!(learner.data.q.get(&TCorridorState::Start, &TCorridorAction::Forward), None);
    learner.step(&mut corridor, state, action).unwrap();
    assert_eq!(learner.window_len(), 2);
    assert_eq!(
        learner.data.q.get(&TCorridorState::Start, &TCorridorAction::Forward),
        Some(-7_500_000)
    );
}

#[test]
fn dyna_q_model_holds_only_real_pairs() {
    let c = config(500_000, 0, 900_000, 0);
    let mut learner: DynaQ<TCorridor> = DynaQ::with_seed(c, 10, TCorridorState::Terminal, 3);
    let mut corridor = TCorridor::with_seed(0, 4);
    assert_eq!(learner.model_size(), 0);
    let outcome = learner.episode(&mut corridor, 100);
    assert_eq!(outcome.steps, 3);
    assert_eq!(learner.model_size(), 3);
    let (observed, _) = learner
        .remembered(TCorridorState::Start, TCorridorAction::Forward)
        .unwrap();
    assert!(observed == TCorridorState::ObserveU || observed == TCorridorState::ObserveL);
    assert_eq!(
        learner.remembered(observed, TCorridorAction::Forward),
        Some((TCorridorState::Split, -5))
    );
    assert_eq!(learner.remembered(TCorridorState::Split, TCorridorAction::Down), None);
    assert_eq!(
        learner.remembered(TCorridorState::Split, TCorridorAction::Up).unwrap().0,
        TCorridorState::Terminal
    );
}

#[test]
fn dyna_q_replay_leaves_the_model() {
    let c = config(RATE_ONE, 0, RATE_ONE, 0);
    let mut learner: DynaQ<GridWorld> = DynaQ::with_seed(c, 0, (9, 0), 3);
    let mut world = cliff(10, 5).world();
    let t = learner.step(&mut world);
    assert_eq!(t.state, (0, 0));
    assert_eq!(learner.model_size(), 1);
    learner.data.set_value(t.state, t.action, 0);
    learner.replay(&world, 0);
    assert_eq!(learner.model_size(), 1);
    assert_eq!(
        learner.data.value(&learner.config, t.state, t.action),
        t.reward as i64 * VALUE_ONE
    );
}

#[test]
fn learners_run_on_the_wrapped_corridor() {
    let c = config(100_000, 50_000, 800_000, 10 * VALUE_ONE);
    let terminal = MWrapper::new(TCorridor::with_seed(2, 0)).get_terminal();
    let mut sarsa: Sarsa<MWrapper<TCorridor>> = Sarsa::with_seed(c, terminal, 1);
    let mut q: QLearning<MWrapper<TCorridor>> = QLearning::with_seed(c, terminal, 2);
    let mut n: NStepSarsa<MWrapper<TCorridor>> = NStepSarsa::with_seed(3, c, terminal, 3);
    let mut d: DynaQ<MWrapper<TCorridor>> = DynaQ::with_seed(c, 5, terminal, 4);
    for seed in 0..30 {
        let mut e1 = MWrapper::new(TCorridor::with_seed(2, seed));
        let mut e2 = MWrapper::new(TCorridor::with_seed(2, seed + 100));
        let mut e3 = MWrapper::new(TCorridor::with_seed(2, seed + 200));
        let mut e4 = MWrapper::new(TCorridor::with_seed(2, seed + 300));
        assert_eq!(sarsa.episode(&mut e1, 10_000).steps, 5);
        assert_eq!(q.episode(&mut e2, 10_000).steps, 5);
        assert_eq!(n.episode(&mut e3, 10_000).steps, 5);
        assert_eq!(d.episode(&mut e4, 10_000).steps, 5);
        assert!(e1.terminated() && e2.terminated() && e3.terminated() && e4.terminated());
    }
    let mut c2 = *sarsa.config();
    c2.set_epsilon(0);
    sarsa.set_config(c2);
    assert_eq!(sarsa.config().epsilon(), 0);
}
