//! Q-learning: off-policy one-step temporal-difference learning.

use vstd::prelude::*;

use rand::rngs::StdRng;

use crate::environment::{Environment, Reward};
pub use crate::learner::{TabularLearner, TabularLearnerConfig, TabularLearnerData};
use crate::learner::{
    add_reward, bootstrap_target, gain_in_range, greedy_target, is_first_max, is_run, learned,
    lemma_live_push, lemma_run_push, max_value, one_step_target, starts_live, sum_of, table_updated,
    EpisodeOutcome, Transition,
};
use crate::random::{entropy_rng, seeded_rng};

verus! {

/// `tables` are the value tables along the run `envs`, `actions`,
/// `rewards`: each step moves the value of the pair taken towards its reward
/// plus `gamma` times the greatest value at the state reached.
pub open spec fn q_learning_tables<E: Environment>(
    tables: Seq<Map<(E::State, E::Action), i64>>,
    terminal: E::State,
    config: TabularLearnerConfig,
    envs: Seq<E>,
    actions: Seq<E::Action>,
    rewards: Seq<Reward>,
) -> bool {
    &&& tables.len() == envs.len()
    &&& forall|i: int|
        0 <= i < actions.len() ==> tables[i + 1] == learned(
            tables[i],
            terminal,
            config,
            envs[i].state(),
            #[trigger] actions[i],
            greedy_target(
                tables[i],
                terminal,
                config,
                envs[i + 1],
                rewards[i],
                envs[i + 1].state(),
            ),
        )
}

pub struct QLearning<E: Environment> {
    pub config: TabularLearnerConfig,
    pub data: TabularLearnerData<E>,
    rng: StdRng,
}

impl<E: Environment> QLearning<E> where E::State: Copy, E::Action: Copy {
    /// A learner with an empty table, drawing from the operating system's
    /// entropy.
    pub fn new(config: TabularLearnerConfig, terminal_state: E::State) -> (r: QLearning<E>)
        ensures
            r.spec_config() == config,
            r.spec_data().q@ == Map::<(E::State, E::Action), i64>::empty(),
            r.spec_data().terminal_state == terminal_state,
    {
        QLearning { config, data: TabularLearnerData::new(terminal_state), rng: entropy_rng() }
    }

    /// As `new`, drawing from a generator seeded by `seed`.
    pub fn with_seed(config: TabularLearnerConfig, terminal_state: E::State, seed: u64) -> (r:
        QLearning<E>)
        ensures
            r.spec_config() == config,
            r.spec_data().q@ == Map::<(E::State, E::Action), i64>::empty(),
            r.spec_data().terminal_state == terminal_state,
    {
        QLearning { config, data: TabularLearnerData::new(terminal_state), rng: seeded_rng(seed) }
    }

    /// Picks an action epsilon-greedily at the current state, takes it, and
    /// moves its value towards `reward + gamma * (greatest value at the next
    /// state)`. The environment must not be terminal.
    pub fn step(&mut self, env: &mut E) -> (r: Transition<E::State, E::Action>)
        requires
            old(env).wf(),
            old(env).state() != old(env).terminal(),
        ensures
            final(env).wf(),
            final(env).terminal() == old(env).terminal(),
            final(self).spec_config() == old(self).spec_config(),
            final(self).spec_data().terminal_state == old(self).spec_data().terminal_state,
            r.state == old(env).state(),
            r.next_state == final(env).state(),
            old(env).steps_to(r.action, *final(env), Some((r.next_state, r.reward))),
            old(env).actions(r.state).contains(r.action),
            ({
                let initial = old(self).spec_config().spec_initial_q();
                &&& old(self).spec_config().spec_epsilon() == 0 ==> exists|i: int|
                    is_first_max(
                        old(self).spec_data().action_values(
                            initial,
                            r.state,
                            old(env).actions(r.state),
                        ),
                        i,
                    ) && r.action == old(env).actions(r.state)[i]
                &&& final(self).spec_data().q@ == table_updated(
                    old(self).spec_data().q@,
                    old(self).spec_data().terminal_state,
                    initial,
                    old(self).spec_config().spec_alpha(),
                    r.state,
                    r.action,
                    bootstrap_target(
                        r.reward,
                        old(self).spec_config().spec_gamma(),
                        max_value(
                            old(self).spec_data().action_values(
                                initial,
                                r.next_state,
                                final(env).actions(r.next_state),
                            ),
                        ),
                    ),
                )
            }),
    {
        let state = env.current_state();
        let action = self.data.epsilon_greedy(&self.config, state, env, &mut self.rng);
        let (next_state, reward) = env.take_action(action).unwrap();
        let next_value = self.data.max_action_value(&self.config, next_state, env);
        let target = one_step_target(reward, self.config.gamma(), next_value);
        self.data.update(&self.config, state, action, target);
        Transition { state, action, next_state, reward }
    }
}

impl<E: Environment> TabularLearner<E> for QLearning<E> where E::State: Copy, E::Action: Copy {
    closed spec fn wf(&self) -> bool {
        true
    }

    closed spec fn spec_data(&self) -> TabularLearnerData<E> {
        self.data
    }

    closed spec fn spec_config(&self) -> TabularLearnerConfig {
        self.config
    }

    /// Steps until the state reached is the terminal state recorded at the
    /// start of the episode, or the budget is spent.
    fn episode(&mut self, env: &mut E, max_steps: u32) -> (r: EpisodeOutcome)
        ensures
            exists|
                envs: Seq<E>,
                actions: Seq<E::Action>,
                rewards: Seq<Reward>,
                tables: Seq<Map<(E::State, E::Action), i64>>,
            |
                #[trigger] q_learning_tables(
                    tables,
                    old(env).terminal(),
                    old(self).spec_config(),
                    envs,
                    actions,
                    rewards,
                ) && is_run(envs, actions, rewards) && envs[0] == *old(env) && envs.last()
                    == *final(env) && rewards.len() == r.steps && r.gain == sum_of(rewards)
                    && starts_live(envs, r.steps as int) && tables[0] == old(
                    self,
                ).spec_data().q@ && tables.last() == final(self).spec_data().q@,
    {
        self.data.terminal_state = env.get_terminal();
        let mut state = env.current_state();
        let mut gain: i64 = 0;
        let mut steps: u32 = 0;
        let ghost mut envs: Seq<E> = seq![*env];
        let ghost mut actions: Seq<E::Action> = Seq::empty();
        let ghost mut rewards: Seq<Reward> = Seq::empty();
        let ghost mut tables: Seq<Map<(E::State, E::Action), i64>> = seq![self.data.q@];
        assert(is_run(envs, actions, rewards));
        while steps < max_steps && !E::same_state(&state, &self.data.terminal_state)
            invariant
                env.wf(),
                env.terminal() == old(env).terminal(),
                state == env.state(),
                self.data.terminal_state == old(env).terminal(),
                self.config == old(self).config,
                steps <= max_steps,
                gain_in_range(gain as int, steps as int),
                is_run(envs, actions, rewards),
                envs[0] == *old(env),
                envs.last() == *env,
                rewards.len() == steps,
                gain == sum_of(rewards),
                starts_live(envs, steps as int),
                q_learning_tables(
                    tables,
                    old(env).terminal(),
                    old(self).config,
                    envs,
                    actions,
                    rewards,
                ),
                tables[0] == old(self).data.q@,
                tables.last() == self.data.q@,
                old(env).state() == old(env).terminal() ==> steps == 0 && gain == 0 && *env
                    == *old(env),
            decreases max_steps - steps,
        {
            let t = self.step(env);
            proof {
                lemma_live_push(envs, *env);
                lemma_run_push(envs, actions, rewards, t.action, *env, t.reward);
                let tables2 = tables.push(self.data.q@);
                let envs2 = envs.push(*env);
                let actions2 = actions.push(t.action);
                assert forall|i: int| 0 <= i < actions2.len() implies tables2[i + 1] == learned(
                    tables2[i],
                    old(env).terminal(),
                    old(self).config,
                    envs2[i].state(),
                    #[trigger] actions2[i],
                    greedy_target(
                        tables2[i],
                        old(env).terminal(),
                        old(self).config,
                        envs2[i + 1],
                        rewards.push(t.reward)[i],
                        envs2[i + 1].state(),
                    ),
                ) by {
                    if i < actions.len() {
                        assert(actions[i] == actions2[i]);
                    }
                }
                tables = tables2;
                envs = envs.push(*env);
                actions = actions.push(t.action);
                rewards = rewards.push(t.reward);
            }
            gain = add_reward(gain, steps, t.reward);
            steps = steps + 1;
            state = t.next_state;
        }
        assert(is_run(envs, actions, rewards));
        EpisodeOutcome { gain, steps }
    }

    fn data(&self) -> (r: &TabularLearnerData<E>) {
        &self.data
    }

    fn config(&self) -> (r: &TabularLearnerConfig) {
        &self.config
    }

    fn set_config(&mut self, config: TabularLearnerConfig) {
        self.config = config;
    }
}

} // verus!
