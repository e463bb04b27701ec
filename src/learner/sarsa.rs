//! SARSA: on-policy one-step temporal-difference learning.

use vstd::prelude::*;

use rand::rngs::StdRng;

use crate::environment::{Environment, Reward};
pub use crate::learner::{TabularLearner, TabularLearnerConfig, TabularLearnerData};
use crate::learner::{
    add_reward, bootstrap_target, gain_in_range, is_first_max, is_run, learned, lemma_live_push,
    lemma_run_push, one_step_target, starts_live, sum_of, table_updated, table_value,
    EpisodeOutcome,
};
use crate::random::{entropy_rng, seeded_rng};

verus! {

/// The action chosen after step `i` of a run: the next action taken, or
/// `pending` after the last step.
pub open spec fn chosen_after<A>(actions: Seq<A>, pending: A, i: int) -> A {
    if i + 1 < actions.len() {
        actions[i + 1]
    } else {
        pending
    }
}

/// `tables` are the value tables along the run `envs`, `actions`,
/// `rewards`, with `pending` the action chosen after the last step: each
/// step moves the value of the pair taken towards its reward plus `gamma`
/// times the value of the next pair chosen.
pub open spec fn sarsa_tables<E: Environment>(
    tables: Seq<Map<(E::State, E::Action), i64>>,
    terminal: E::State,
    config: TabularLearnerConfig,
    envs: Seq<E>,
    actions: Seq<E::Action>,
    rewards: Seq<Reward>,
    pending: E::Action,
) -> bool {
    &&& tables.len() == envs.len()
    &&& forall|i: int|
        0 <= i < actions.len() ==> tables[i + 1] == learned(
            tables[i],
            terminal,
            config,
            envs[i].state(),
            #[trigger] actions[i],
            bootstrap_target(
                rewards[i],
                config.spec_gamma(),
                table_value(
                    tables[i],
                    terminal,
                    config.spec_initial_q(),
                    envs[i + 1].state(),
                    chosen_after(actions, pending, i),
                ),
            ),
        )
}

pub struct Sarsa<E: Environment> {
    pub config: TabularLearnerConfig,
    pub data: TabularLearnerData<E>,
    rng: StdRng,
}

impl<E: Environment> Sarsa<E> where E::State: Copy, E::Action: Copy {
    /// A learner with an empty table, drawing from the operating system's
    /// entropy.
    pub fn new(config: TabularLearnerConfig, terminal_state: E::State) -> (r: Sarsa<E>)
        ensures
            r.spec_config() == config,
            r.spec_data().q@ == Map::<(E::State, E::Action), i64>::empty(),
            r.spec_data().terminal_state == terminal_state,
    {
        Sarsa { config, data: TabularLearnerData::new(terminal_state), rng: entropy_rng() }
    }

    /// As `new`, drawing from a generator seeded by `seed`.
    pub fn with_seed(config: TabularLearnerConfig, terminal_state: E::State, seed: u64) -> (r:
        Sarsa<E>)
        ensures
            r.spec_config() == config,
            r.spec_data().q@ == Map::<(E::State, E::Action), i64>::empty(),
            r.spec_data().terminal_state == terminal_state,
    {
        Sarsa { config, data: TabularLearnerData::new(terminal_state), rng: seeded_rng(seed) }
    }

    /// Takes `action` in `state` (the environment's current state). Unless
    /// the environment is terminal, picks the next action epsilon-greedily at
    /// the next state and moves the value of `(state, action)` towards
    /// `reward + gamma * value(next state, next action)`; returns the next
    /// state, the next action and the reward.
    pub fn step(&mut self, env: &mut E, state: E::State, action: E::Action) -> (r: Option<
        (E::State, E::Action, Reward),
    >)
        requires
            old(env).wf(),
            state == old(env).state(),
        ensures
            final(env).wf(),
            final(env).terminal() == old(env).terminal(),
            final(self).spec_config() == old(self).spec_config(),
            final(self).spec_data().terminal_state == old(self).spec_data().terminal_state,
            r is None <==> old(env).state() == old(env).terminal(),
            r is None ==> *final(env) == *old(env) && final(self).spec_data().q@ == old(
                self,
            ).spec_data().q@,
            r matches Some((next_state, next_action, reward)) ==> {
                let initial = old(self).spec_config().spec_initial_q();
                &&& old(env).steps_to(action, *final(env), Some((next_state, reward)))
                &&& next_state == final(env).state()
                &&& final(env).actions(next_state).contains(next_action)
                &&& old(self).spec_config().spec_epsilon() == 0 ==> exists|i: int|
                    is_first_max(
                        old(self).spec_data().action_values(
                            initial,
                            next_state,
                            final(env).actions(next_state),
                        ),
                        i,
                    ) && next_action == final(env).actions(next_state)[i]
                &&& final(self).spec_data().q@ == table_updated(
                    old(self).spec_data().q@,
                    old(self).spec_data().terminal_state,
                    initial,
                    old(self).spec_config().spec_alpha(),
                    state,
                    action,
                    bootstrap_target(
                        reward,
                        old(self).spec_config().spec_gamma(),
                        old(self).spec_data().value_of(initial, next_state, next_action),
                    ),
                )
            },
    {
        match env.take_action(action) {
            None => None,
            Some((next_state, reward)) => {
                let next_action = self.data.epsilon_greedy(
                    &self.config,
                    next_state,
                    env,
                    &mut self.rng,
                );
                let next_value = self.data.value(&self.config, next_state, next_action);
                let target = one_step_target(reward, self.config.gamma(), next_value);
                self.data.update(&self.config, state, action, target);
                Some((next_state, next_action, reward))
            },
        }
    }
}

impl<E: Environment> TabularLearner<E> for Sarsa<E> where E::State: Copy, E::Action: Copy {
    closed spec fn wf(&self) -> bool {
        true
    }

    closed spec fn spec_data(&self) -> TabularLearnerData<E> {
        self.data
    }

    closed spec fn spec_config(&self) -> TabularLearnerConfig {
        self.config
    }

    /// Picks the first action epsilon-greedily, then steps until the
    /// environment refuses (it has terminated) or the budget is spent.
    fn episode(&mut self, env: &mut E, max_steps: u32) -> (r: EpisodeOutcome)
        ensures
            exists|
                envs: Seq<E>,
                actions: Seq<E::Action>,
                rewards: Seq<Reward>,
                tables: Seq<Map<(E::State, E::Action), i64>>,
                pending: E::Action,
            |
                #[trigger] sarsa_tables(
                    tables,
                    old(env).terminal(),
                    old(self).spec_config(),
                    envs,
                    actions,
                    rewards,
                    pending,
                ) && is_run(envs, actions, rewards) && envs[0] == *old(env) && envs.last()
                    == *final(env) && rewards.len() == r.steps && r.gain == sum_of(rewards)
                    && starts_live(envs, r.steps as int) && tables[0] == old(
                    self,
                ).spec_data().q@ && tables.last() == final(self).spec_data().q@,
    {
        self.data.terminal_state = env.get_terminal();
        let mut state = env.current_state();
        let mut action = self.data.epsilon_greedy(&self.config, state, env, &mut self.rng);
        let mut gain: i64 = 0;
        let mut steps: u32 = 0;
        let ghost mut envs: Seq<E> = seq![*env];
        let ghost mut actions: Seq<E::Action> = Seq::empty();
        let ghost mut rewards: Seq<Reward> = Seq::empty();
        let ghost mut tables: Seq<Map<(E::State, E::Action), i64>> = seq![self.data.q@];
        assert(is_run(envs, actions, rewards));
        while steps < max_steps && !env.terminated()
            invariant
                env.wf(),
                env.terminal() == old(env).terminal(),
                state == env.state(),
                self.data.terminal_state == old(env).terminal(),
                self.config == old(self).config,
                steps <= max_steps,
                gain_in_range(gain as int, steps as int),
                is_run(envs, actions, rewards),
                envs[0] == *old(env),
                envs.last() == *env,
                rewards.len() == steps,
                gain == sum_of(rewards),
                starts_live(envs, steps as int),
                sarsa_tables(
                    tables,
                    old(env).terminal(),
                    old(self).config,
                    envs,
                    actions,
                    rewards,
                    action,
                ),
                tables[0] == old(self).data.q@,
                tables.last() == self.data.q@,
                old(env).state() == old(env).terminal() ==> steps == 0 && gain == 0 && *env
                    == *old(env),
            decreases max_steps - steps,
        {
            match self.step(env, state, action) {
                None => {
                    proof {
                        assert(false);
                    }
                },
                Some((next_state, next_action, reward)) => {
                    proof {
                        lemma_live_push(envs, *env);
                        lemma_run_push(envs, actions, rewards, action, *env, reward);
                        let tables2 = tables.push(self.data.q@);
                        let envs2 = envs.push(*env);
                        let actions2 = actions.push(action);
                        let rewards2 = rewards.push(reward);
                        assert forall|i: int|
                            0 <= i < actions2.len() implies tables2[i + 1] == learned(
                            tables2[i],
                            old(env).terminal(),
                            old(self).config,
                            envs2[i].state(),
                            #[trigger] actions2[i],
                            bootstrap_target(
                                rewards2[i],
                                old(self).config.spec_gamma(),
                                table_value(
                                    tables2[i],
                                    old(env).terminal(),
                                    old(self).config.spec_initial_q(),
                                    envs2[i + 1].state(),
                                    chosen_after(actions2, next_action, i),
                                ),
                            ),
                        ) by {
                            if i < actions.len() {
                                assert(actions[i] == actions2[i]);
                                assert(chosen_after(actions2, next_action, i) == chosen_after(
                                    actions,
                                    action,
                                    i,
                                ));
                            }
                        }
                        tables = tables2;
                        envs = envs.push(*env);
                        actions = actions.push(action);
                        rewards = rewards.push(reward);
                    }
                    gain = add_reward(gain, steps, reward);
                    steps = steps + 1;
                    state = next_state;
                    action = next_action;
                },
            }
        }
        assert(is_run(envs, actions, rewards));
        EpisodeOutcome { gain, steps }
    }

    fn data(&self) -> (r: &TabularLearnerData<E>) {
        &self.data
    }

    fn config(&self) -> (r: &TabularLearnerConfig) {
        &self.config
    }

    fn set_config(&mut self, config: TabularLearnerConfig) {
        self.config = config;
    }
}

} // verus!
