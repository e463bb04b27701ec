//! Dyna-Q: Q-learning that also learns a one-step model of the environment
//! and replays remembered transitions from it after every real step.

use vstd::prelude::*;

use rand::rngs::StdRng;

use crate::environment::{Environment, Reward};
pub use crate::learner::{TabularLearner, TabularLearnerConfig, TabularLearnerData};
use crate::learner::{
    add_reward, gain_in_range, greedy_target, is_first_max, is_run, learned, lemma_live_push,
    lemma_run_push, one_step_target, run_pairs, starts_live, sum_of, EpisodeOutcome, Transition,
};
use crate::random::{draw_below, entropy_rng, seeded_rng};
use crate::table::PairTable;

verus! {

/// The model as seen by planning: each pair's last real outcome.
pub type Model<E> = Map<
    (<E as Environment>::State, <E as Environment>::Action),
    (<E as Environment>::State, Reward),
>;

/// `table` after replaying `keys[k]`: its value moves towards the remembered
/// reward plus `gamma` times the greatest value in `table` among the actions
/// that `env` offers at the remembered next state.
pub open spec fn replay_one<E: Environment>(
    table: Map<(E::State, E::Action), i64>,
    terminal: E::State,
    config: TabularLearnerConfig,
    model: Model<E>,
    keys: Seq<(E::State, E::Action)>,
    env: E,
    k: int,
) -> Map<(E::State, E::Action), i64> {
    let key = keys[k];
    let (next_state, reward) = model[key];
    learned(
        table,
        terminal,
        config,
        key.0,
        key.1,
        greedy_target(table, terminal, config, env, reward, next_state),
    )
}

/// `table` after replaying `keys[draws[0]]`, `keys[draws[1]]`, ... in turn.
pub open spec fn replayed<E: Environment>(
    table: Map<(E::State, E::Action), i64>,
    terminal: E::State,
    config: TabularLearnerConfig,
    model: Model<E>,
    keys: Seq<(E::State, E::Action)>,
    env: E,
    draws: Seq<int>,
) -> Map<(E::State, E::Action), i64>
    decreases draws.len(),
{
    if draws.len() == 0 {
        table
    } else {
        replay_one(
            replayed(table, terminal, config, model, keys, env, draws.drop_last()),
            terminal,
            config,
            model,
            keys,
            env,
            draws.last(),
        )
    }
}

/// `draws` are `count` indices below `bound`.
pub open spec fn draws_in_range(draws: Seq<int>, count: nat, bound: nat) -> bool {
    &&& draws.len() == count
    &&& forall|k: int| 0 <= k < draws.len() ==> 0 <= #[trigger] draws[k] < bound
}

/// `tables`, `models` and `keys` are the value tables, models and model
/// key lists along the run `envs`, `actions`, `rewards`, for `n` replays per
/// step with the indices `draws[i]` after step `i`: each step learns as in
/// Q-learning, remembers its real outcome for the pair taken, and replays.
pub open spec fn dyna_q_tables<E: Environment>(
    tables: Seq<Map<(E::State, E::Action), i64>>,
    models: Seq<Model<E>>,
    keys: Seq<Seq<(E::State, E::Action)>>,
    draws: Seq<Seq<int>>,
    n: u32,
    terminal: E::State,
    config: TabularLearnerConfig,
    envs: Seq<E>,
    actions: Seq<E::Action>,
    rewards: Seq<Reward>,
) -> bool {
    &&& tables.len() == envs.len()
    &&& models.len() == envs.len()
    &&& keys.len() == envs.len()
    &&& draws.len() == actions.len()
    &&& forall|i: int|
        0 <= i < actions.len() ==> {
            let pair = (envs[i].state(), #[trigger] actions[i]);
            &&& models[i + 1] == models[i].insert(pair, (envs[i + 1].state(), rewards[i]))
            &&& keys[i + 1] == if models[i].contains_key(pair) {
                keys[i]
            } else {
                keys[i].push(pair)
            }
            &&& draws_in_range(draws[i], n as nat, keys[i + 1].len())
            &&& tables[i + 1] == replayed(
                learned(
                    tables[i],
                    terminal,
                    config,
                    pair.0,
                    pair.1,
                    greedy_target(
                        tables[i],
                        terminal,
                        config,
                        envs[i + 1],
                        rewards[i],
                        envs[i + 1].state(),
                    ),
                ),
                terminal,
                config,
                models[i + 1],
                keys[i + 1],
                envs[i + 1],
                draws[i],
            )
        }
}

pub struct DynaQ<E: Environment> {
    pub config: TabularLearnerConfig,
    pub data: TabularLearnerData<E>,
    /// Planning steps after each real step.
    n: u32,
    /// The last real outcome `(next state, reward)` of each pair taken.
    model: PairTable<E, (E::State, Reward)>,
    rng: StdRng,
}

impl<E: Environment> DynaQ<E> where E::State: Copy, E::Action: Copy {
    /// The number of replays after each real step.
    pub closed spec fn spec_n(&self) -> u32 {
        self.n
    }

    /// The model: for each pair taken, the last real outcome.
    pub closed spec fn model(&self) -> Map<(E::State, E::Action), (E::State, Reward)> {
        self.model@
    }

    /// The pairs of the model, each once, in the order they were first taken.
    pub closed spec fn model_keys(&self) -> Seq<(E::State, E::Action)> {
        self.model.keys()
    }

    /// A learner with an empty table and model, drawing from the operating
    /// system's entropy.
    pub fn new(config: TabularLearnerConfig, n: u32, terminal_state: E::State) -> (r: DynaQ<E>)
        ensures
            r.wf(),
            r.spec_n() == n,
            r.model() == Map::<(E::State, E::Action), (E::State, Reward)>::empty(),
            r.spec_config() == config,
            r.spec_data().q@ == Map::<(E::State, E::Action), i64>::empty(),
            r.spec_data().terminal_state == terminal_state,
    {
        DynaQ {
            config,
            data: TabularLearnerData::new(terminal_state),
            n,
            model: PairTable::new(),
            rng: entropy_rng(),
        }
    }

    /// As `new`, drawing from a generator seeded by `seed`.
    pub fn with_seed(
        config: TabularLearnerConfig,
        n: u32,
        terminal_state: E::State,
        seed: u64,
    ) -> (r: DynaQ<E>)
        ensures
            r.wf(),
            r.spec_n() == n,
            r.model() == Map::<(E::State, E::Action), (E::State, Reward)>::empty(),
            r.spec_config() == config,
            r.spec_data().q@ == Map::<(E::State, E::Action), i64>::empty(),
            r.spec_data().terminal_state == terminal_state,
    {
        DynaQ {
            config,
            data: TabularLearnerData::new(terminal_state),
            n,
            model: PairTable::new(),
            rng: seeded_rng(seed),
        }
    }

    /// The number of pairs in the model.
    pub fn model_size(&self) -> (r: usize)
        ensures
            r == self.model_keys().len(),
    {
        self.model.len()
    }

    /// What the model remembers of `(state, action)`.
    pub fn remembered(&self, state: E::State, action: E::Action) -> (r: Option<(E::State, Reward)>)
        ensures
            r is Some <==> self.model().contains_key((state, action)),
            r matches Some(o) ==> o == self.model()[(state, action)],
    {
        self.model.get(&state, &action)
    }

    /// Replays the `index`-th pair of the model: its value moves towards the
    /// remembered reward plus `gamma` times the greatest value, in the current
    /// table, among the actions that `env` offers at the remembered next
    /// state. The model is left as it is.
    pub fn replay(&mut self, env: &E, index: usize)
        requires
            old(self).wf(),
            env.wf(),
            index < old(self).model_keys().len(),
        ensures
            final(self).wf(),
            final(self).model() == old(self).model(),
            final(self).model_keys() == old(self).model_keys(),
            final(self).spec_n() == old(self).spec_n(),
            final(self).spec_config() == old(self).spec_config(),
            final(self).spec_data().terminal_state == old(self).spec_data().terminal_state,
            final(self).spec_data().q@ == replay_one(
                old(self).spec_data().q@,
                old(self).spec_data().terminal_state,
                old(self).spec_config(),
                old(self).model(),
                old(self).model_keys(),
                *env,
                index as int,
            ),
    {
        let (state, action, outcome) = self.model.entry(index);
        let (next_state, reward) = outcome;
        let next_value = self.data.max_action_value(&self.config, next_state, env);
        let target = one_step_target(reward, self.config.gamma(), next_value);
        self.data.update(&self.config, state, action, target);
    }

    /// The planning half: `n` replays of pairs drawn uniformly from those of
    /// the model, whatever the draws. The model is left as it is.
    pub fn plan(&mut self, env: &E)
        requires
            old(self).wf(),
            env.wf(),
            old(self).model_keys().len() > 0,
        ensures
            final(self).wf(),
            final(self).model() == old(self).model(),
            final(self).model_keys() == old(self).model_keys(),
            final(self).spec_n() == old(self).spec_n(),
            final(self).spec_config() == old(self).spec_config(),
            final(self).spec_data().terminal_state == old(self).spec_data().terminal_state,
            exists|draws: Seq<int>|
                #[trigger] draws_in_range(
                    draws,
                    old(self).spec_n() as nat,
                    old(self).model_keys().len(),
                )
                    && final(self).spec_data().q@ == replayed(
                    old(self).spec_data().q@,
                    old(self).spec_data().terminal_state,
                    old(self).spec_config(),
                    old(self).model(),
                    old(self).model_keys(),
                    *env,
                    draws,
                ),
    {
        let ghost mut draws: Seq<int> = Seq::empty();
        let mut i: u32 = 0;
        while i < self.n
            invariant
                self.wf(),
                env.wf(),
                self.model() == old(self).model(),
                self.model_keys() == old(self).model_keys(),
                self.model_keys().len() > 0,
                self.n == old(self).n,
                self.config == old(self).config,
                self.data.terminal_state == old(self).data.terminal_state,
                i <= self.n,
                draws_in_range(draws, i as nat, self.model_keys().len()),
                self.data.q@ == replayed(
                    old(self).data.q@,
                    old(self).data.terminal_state,
                    old(self).config,
                    old(self).model(),
                    old(self).model_keys(),
                    *env,
                    draws,
                ),
            decreases self.n - i,
        {
            let len = self.model.len();
            let index = draw_below(&mut self.rng, len as u64) as usize;
            self.replay(env, index);
            proof {
                let next = draws.push(index as int);
                assert(next.drop_last() =~= draws);
                draws = next;
            }
            i = i + 1;
        }
        assert(draws_in_range(draws, self.n as nat, self.model_keys().len()));
    }

    /// One real step as in Q-learning; then the model remembers the outcome
    /// of the pair taken, replacing what it held for that pair, and `n`
    /// replays follow. The environment must not be terminal.
    pub fn step(&mut self, env: &mut E) -> (r: Transition<E::State, E::Action>)
        requires
            old(self).wf(),
            old(env).wf(),
            old(env).state() != old(env).terminal(),
        ensures
            final(self).wf(),
            final(env).wf(),
            final(env).terminal() == old(env).terminal(),
            final(self).spec_n() == old(self).spec_n(),
            final(self).spec_config() == old(self).spec_config(),
            final(self).spec_data().terminal_state == old(self).spec_data().terminal_state,
            r.state == old(env).state(),
            r.next_state == final(env).state(),
            old(env).steps_to(r.action, *final(env), Some((r.next_state, r.reward))),
            old(env).actions(r.state).contains(r.action),
            old(self).spec_config().spec_epsilon() == 0 ==> exists|i: int|
                is_first_max(
                    old(self).spec_data().action_values(
                        old(self).spec_config().spec_initial_q(),
                        r.state,
                        old(env).actions(r.state),
                    ),
                    i,
                ) && r.action == old(env).actions(r.state)[i],
            final(self).model() == old(self).model().insert(
                (r.state, r.action),
                (r.next_state, r.reward),
            ),
            final(self).model_keys() == if old(self).model().contains_key((r.state, r.action)) {
                old(self).model_keys()
            } else {
                old(self).model_keys().push((r.state, r.action))
            },
            exists|draws: Seq<int>|
                #[trigger] draws_in_range(
                    draws,
                    old(self).spec_n() as nat,
                    final(self).model_keys().len(),
                )
                    && final(self).spec_data().q@ == replayed(
                    learned(
                        old(self).spec_data().q@,
                        old(self).spec_data().terminal_state,
                        old(self).spec_config(),
                        r.state,
                        r.action,
                        greedy_target(
                            old(self).spec_data().q@,
                            old(self).spec_data().terminal_state,
                            old(self).spec_config(),
                            *final(env),
                            r.reward,
                            r.next_state,
                        ),
                    ),
                    old(self).spec_data().terminal_state,
                    old(self).spec_config(),
                    final(self).model(),
                    final(self).model_keys(),
                    *final(env),
                    draws,
                ),
    {
        let state = env.current_state();
        let action = self.data.epsilon_greedy(&self.config, state, env, &mut self.rng);
        let (next_state, reward) = env.take_action(action).unwrap();
        let next_value = self.data.max_action_value(&self.config, next_state, env);
        let target = one_step_target(reward, self.config.gamma(), next_value);
        self.data.update(&self.config, state, action, target);
        self.model.insert(state, action, (next_state, reward));
        proof {
            assert(self.model@.contains_key((state, action)));
            assert(self.model.keys().contains((state, action)));
        }
        self.plan(env);
        Transition { state, action, next_state, reward }
    }
}

impl<E: Environment> TabularLearner<E> for DynaQ<E> where E::State: Copy, E::Action: Copy {
    /// The model lists each of its pairs once.
    closed spec fn wf(&self) -> bool {
        self.model.wf()
    }

    closed spec fn spec_data(&self) -> TabularLearnerData<E> {
        self.data
    }

    closed spec fn spec_config(&self) -> TabularLearnerConfig {
        self.config
    }

    /// Steps until the state reached is the terminal state recorded at the
    /// start of the episode, or the budget is spent.
    fn episode(&mut self, env: &mut E, max_steps: u32) -> (r: EpisodeOutcome)
        ensures
            final(self).spec_n() == old(self).spec_n(),
            exists|
                envs: Seq<E>,
                actions: Seq<E::Action>,
                rewards: Seq<Reward>,
                tables: Seq<Map<(E::State, E::Action), i64>>,
                models: Seq<Model<E>>,
                keys: Seq<Seq<(E::State, E::Action)>>,
                draws: Seq<Seq<int>>,
            |
                #[trigger] dyna_q_tables(
                    tables,
                    models,
                    keys,
                    draws,
                    old(self).spec_n(),
                    old(env).terminal(),
                    old(self).spec_config(),
                    envs,
                    actions,
                    rewards,
                ) && is_run(envs, actions, rewards) && envs[0] == *old(env) && envs.last()
                    == *final(env) && rewards.len() == r.steps && r.gain == sum_of(rewards)
                    && starts_live(envs, r.steps as int) && tables[0] == old(
                    self,
                ).spec_data().q@ && tables.last() == final(self).spec_data().q@ && models[0]
                    == old(self).model() && models.last() == final(self).model() && keys[0]
                    == old(self).model_keys() && keys.last() == final(self).model_keys()
                    && final(self).model().dom() == old(self).model().dom().union(
                    run_pairs(envs, actions),
                ),
    {
        self.data.terminal_state = env.get_terminal();
        let mut state = env.current_state();
        let mut gain: i64 = 0;
        let mut steps: u32 = 0;
        let ghost mut envs: Seq<E> = seq![*env];
        let ghost mut actions: Seq<E::Action> = Seq::empty();
        let ghost mut rewards: Seq<Reward> = Seq::empty();
        let ghost mut tables: Seq<Map<(E::State, E::Action), i64>> = seq![self.data.q@];
        let ghost mut models: Seq<Model<E>> = seq![self.model@];
        let ghost mut keys: Seq<Seq<(E::State, E::Action)>> = seq![self.model.keys()];
        let ghost mut draws: Seq<Seq<int>> = Seq::empty();
        assert(is_run(envs, actions, rewards));
        while steps < max_steps && !E::same_state(&state, &self.data.terminal_state)
            invariant
                self.wf(),
                env.wf(),
                env.terminal() == old(env).terminal(),
                state == env.state(),
                self.data.terminal_state == old(env).terminal(),
                self.config == old(self).config,
                steps <= max_steps,
                gain_in_range(gain as int, steps as int),
                is_run(envs, actions, rewards),
                envs[0] == *old(env),
                envs.last() == *env,
                rewards.len() == steps,
                gain == sum_of(rewards),
                starts_live(envs, steps as int),
                self.n == old(self).n,
                dyna_q_tables(
                    tables,
                    models,
                    keys,
                    draws,
                    self.n,
                    old(env).terminal(),
                    old(self).config,
                    envs,
                    actions,
                    rewards,
                ),
                tables[0] == old(self).data.q@,
                tables.last() == self.data.q@,
                models[0] == old(self).model@,
                models.last() == self.model@,
                keys[0] == old(self).model.keys(),
                keys.last() == self.model.keys(),
                self.model@.dom() == old(self).model@.dom().union(run_pairs(envs, actions)),
                old(env).state() == old(env).terminal() ==> steps == 0 && gain == 0 && *env
                    == *old(env),
            decreases max_steps - steps,
        {
            let ghost q0 = self.data.q@;
            let t = self.step(env);
            proof {
                lemma_live_push(envs, *env);
                lemma_run_push(envs, actions, rewards, t.action, *env, t.reward);
                let d = choose|d: Seq<int>|
                    #[trigger] draws_in_range(d, self.n as nat, self.model_keys().len())
                        && self.data.q@ == replayed(
                        learned(
                            q0,
                            old(env).terminal(),
                            old(self).config,
                            t.state,
                            t.action,
                            greedy_target(
                                q0,
                                old(env).terminal(),
                                old(self).config,
                                *env,
                                t.reward,
                                t.next_state,
                            ),
                        ),
                        old(env).terminal(),
                        old(self).config,
                        self.model(),
                        self.model_keys(),
                        *env,
                        d,
                    );
                let tables2 = tables.push(self.data.q@);
                let models2 = models.push(self.model@);
                let keys2 = keys.push(self.model.keys());
                let draws2 = draws.push(d);
                let envs2 = envs.push(*env);
                let actions2 = actions.push(t.action);
                let rewards2 = rewards.push(t.reward);
                assert forall|i: int| 0 <= i < actions2.len() implies {
                    let pair = (envs2[i].state(), #[trigger] actions2[i]);
                    &&& models2[i + 1] == models2[i].insert(
                        pair,
                        (envs2[i + 1].state(), rewards2[i]),
                    )
                    &&& keys2[i + 1] == if models2[i].contains_key(pair) {
                        keys2[i]
                    } else {
                        keys2[i].push(pair)
                    }
                    &&& draws_in_range(draws2[i], self.n as nat, keys2[i + 1].len())
                    &&& tables2[i + 1] == replayed(
                        learned(
                            tables2[i],
                            old(env).terminal(),
                            old(self).config,
                            pair.0,
                            pair.1,
                            greedy_target(
                                tables2[i],
                                old(env).terminal(),
                                old(self).config,
                                envs2[i + 1],
                                rewards2[i],
                                envs2[i + 1].state(),
                            ),
                        ),
                        old(env).terminal(),
                        old(self).config,
                        models2[i + 1],
                        keys2[i + 1],
                        envs2[i + 1],
                        draws2[i],
                    )
                } by {
                    if i < actions.len() {
                        assert(actions[i] == actions2[i]);
                    }
                }
                let pair = (t.state, t.action);
                assert(envs.last().state() == t.state);
                assert(run_pairs(envs2, actions2) =~= run_pairs(envs, actions).insert(pair)) by {
                    assert forall|p: (E::State, E::Action)| #[trigger]
                        run_pairs(envs2, actions2).contains(p) implies run_pairs(
                        envs,
                        actions,
                    ).insert(pair).contains(p) by {
                        let i = choose|i: int|
                            0 <= i < actions2.len() && p == (
                                envs2[i].state(),
                                #[trigger] actions2[i],
                            );
                        if i < actions.len() {
                            assert(actions2[i] == actions[i]);
                            assert(envs2[i] == envs[i]);
                        }
                    }
                    assert forall|p: (E::State, E::Action)| #[trigger]
                        run_pairs(envs, actions).insert(pair).contains(p) implies run_pairs(
                        envs2,
                        actions2,
                    ).contains(p) by {
                        if p == pair {
                            let i = actions.len() as int;
                            assert(actions2[i] == t.action);
                            assert(envs2[i] == envs[i]);
                        } else {
                            let i = choose|i: int|
                                0 <= i < actions.len() && p == (
                                    envs[i].state(),
                                    #[trigger] actions[i],
                                );
                            assert(actions2[i] == actions[i]);
                            assert(envs2[i] == envs[i]);
                        }
                    }
                }
                assert(self.model@.dom() =~= old(self).model@.dom().union(
                    run_pairs(envs2, actions2),
                ));
                tables = tables2;
                models = models2;
                keys = keys2;
                draws = draws2;
                envs = envs.push(*env);
                actions = actions.push(t.action);
                rewards = rewards.push(t.reward);
            }
            gain = add_reward(gain, steps, t.reward);
            steps = steps + 1;
            state = t.next_state;
        }
        assert(is_run(envs, actions, rewards));
        EpisodeOutcome { gain, steps }
    }

    fn data(&self) -> (r: &TabularLearnerData<E>) {
        &self.data
    }

    fn config(&self) -> (r: &TabularLearnerConfig) {
        &self.config
    }

    fn set_config(&mut self, config: TabularLearnerConfig) {
        self.config = config;
    }
}

} // verus!
