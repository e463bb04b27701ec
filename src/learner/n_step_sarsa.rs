//! n-step SARSA: on-policy learning from the discounted return of the last
//! `n` rewards, bootstrapped by the value of the pair reached.

use vstd::prelude::*;

use rand::rngs::StdRng;

use crate::environment::{Environment, Reward};
pub use crate::learner::{TabularLearner, TabularLearnerConfig, TabularLearnerData};
use crate::learner::{
    add_reward, discounted_return, gain_in_range, is_first_max, is_run, learned, lemma_live_push,
    lemma_run_push, one_step_target, run_steps, starts_live, sum_of, table_updated, table_value,
    EpisodeOutcome, RATE_ONE,
};
use crate::random::{entropy_rng, seeded_rng};

verus! {

/// The rewards of a window of `(state, action, reward)` steps.
pub open spec fn rewards_of<S, A>(window: Seq<(S, A, Reward)>) -> Seq<Reward> {
    window.map_values(|t: (S, A, Reward)| t.2)
}

/// The window of capacity `n` after the step `t`: the oldest step leaves
/// when the window is full.
pub open spec fn next_window<S, A>(n: usize, window: Seq<(S, A, Reward)>, t: (S, A, Reward)) -> Seq<
    (S, A, Reward),
> {
    if window.len() == n {
        window.drop_first().push(t)
    } else {
        window.push(t)
    }
}

/// The window after each of `steps` in turn.
pub open spec fn window_after<S, A>(
    n: usize,
    window: Seq<(S, A, Reward)>,
    steps: Seq<(S, A, Reward)>,
) -> Seq<(S, A, Reward)>
    decreases steps.len(),
{
    if steps.len() == 0 {
        window
    } else {
        next_window(n, window_after(n, window, steps.drop_last()), steps.last())
    }
}

/// `table` after the first `k` updates of the flush of `window`: the `i`-th
/// pair moves towards the return of the rewards from the `i`-th on, with
/// nothing bootstrapped.
pub open spec fn flushed<S, A>(
    table: Map<(S, A), i64>,
    terminal: S,
    initial: i64,
    alpha: u32,
    gamma: u32,
    window: Seq<(S, A, Reward)>,
    k: nat,
) -> Map<(S, A), i64>
    decreases k,
{
    if k == 0 {
        table
    } else {
        let i = k - 1;
        table_updated(
            flushed(table, terminal, initial, alpha, gamma, window, i as nat),
            terminal,
            initial,
            alpha,
            window[i].0,
            window[i].1,
            discounted_return(rewards_of(window.subrange(i, window.len() as int)), gamma, 0),
        )
    }
}

/// In an episode of fewer steps than the window holds, the window is never
/// full before a step, so no step updates the table, and at the end the
/// window holds every step, oldest first: the flush then updates each
/// visited pair once, from the rewards observed after it.
pub proof fn lemma_short_episode_window<S, A>(n: usize, steps: Seq<(S, A, Reward)>)
    requires
        steps.len() < n,
    ensures
        window_after(n, Seq::empty(), steps) == steps,
        forall|k: int|
            0 <= k < steps.len() ==> #[trigger] window_after(n, Seq::empty(), steps.take(k)).len()
                < n,
    decreases steps.len(),
{
    if steps.len() > 0 {
        let rest = steps.drop_last();
        lemma_short_episode_window(n, rest);
        assert(rest.push(steps.last()) =~= steps);
        assert forall|k: int| 0 <= k < steps.len() implies #[trigger] window_after(
            n,
            Seq::empty(),
            steps.take(k),
        ).len() < n by {
            if k < rest.len() {
                assert(steps.take(k) =~= rest.take(k));
            } else {
                assert(steps.take(k) =~= rest);
            }
        }
    }
}

/// The table after a step taken with `window` before it, from `state` by
/// `action`: if the window is full, its oldest pair moves towards the return
/// of the window's rewards bootstrapped by the value of `(state, action)`.
pub open spec fn window_learned<S, A>(
    table: Map<(S, A), i64>,
    terminal: S,
    config: TabularLearnerConfig,
    n: usize,
    window: Seq<(S, A, Reward)>,
    state: S,
    action: A,
) -> Map<(S, A), i64> {
    if window.len() == n {
        learned(
            table,
            terminal,
            config,
            window[0].0,
            window[0].1,
            discounted_return(
                rewards_of(window),
                config.spec_gamma(),
                table_value(table, terminal, config.spec_initial_q(), state, action),
            ),
        )
    } else {
        table
    }
}

/// `tables` and `windows` are the value tables and windows along the run
/// `envs`, `actions`, `rewards`, for windows of `n` steps.
pub open spec fn n_step_tables<E: Environment>(
    tables: Seq<Map<(E::State, E::Action), i64>>,
    windows: Seq<Seq<(E::State, E::Action, Reward)>>,
    n: usize,
    terminal: E::State,
    config: TabularLearnerConfig,
    envs: Seq<E>,
    actions: Seq<E::Action>,
    rewards: Seq<Reward>,
) -> bool {
    &&& tables.len() == envs.len()
    &&& windows.len() == envs.len()
    &&& forall|i: int|
        0 <= i < actions.len() ==> {
            &&& windows[i + 1] == next_window(
                n,
                windows[i],
                (envs[i].state(), #[trigger] actions[i], rewards[i]),
            )
            &&& tables[i + 1] == window_learned(
                tables[i],
                terminal,
                config,
                n,
                windows[i],
                envs[i].state(),
                actions[i],
            )
        }
}

pub struct NStepSarsa<E: Environment> {
    pub config: TabularLearnerConfig,
    pub data: TabularLearnerData<E>,
    n: usize,
    /// The last steps `(S_t, A_t, R_{t+1})` of the episode, oldest first.
    history: Vec<(E::State, E::Action, Reward)>,
    rng: StdRng,
}

impl<E: Environment> NStepSarsa<E> where E::State: Copy, E::Action: Copy {
    /// The number of rewards in a return.
    pub closed spec fn spec_n(&self) -> usize {
        self.n
    }

    /// The window of the last steps, oldest first.
    pub closed spec fn window(&self) -> Seq<(E::State, E::Action, Reward)> {
        self.history@
    }

    /// A learner with an empty table and window, drawing from the operating
    /// system's entropy.
    pub fn new(n: usize, config: TabularLearnerConfig, terminal_state: E::State) -> (r: NStepSarsa<
        E,
    >)
        requires
            n >= 1,
        ensures
            r.wf(),
            r.spec_n() == n,
            r.window() == Seq::<(E::State, E::Action, Reward)>::empty(),
            r.spec_config() == config,
            r.spec_data().q@ == Map::<(E::State, E::Action), i64>::empty(),
            r.spec_data().terminal_state == terminal_state,
    {
        NStepSarsa {
            config,
            data: TabularLearnerData::new(terminal_state),
            n,
            history: Vec::new(),
            rng: entropy_rng(),
        }
    }

    /// As `new`, drawing from a generator seeded by `seed`.
    pub fn with_seed(
        n: usize,
        config: TabularLearnerConfig,
        terminal_state: E::State,
        seed: u64,
    ) -> (r: NStepSarsa<E>)
        requires
            n >= 1,
        ensures
            r.wf(),
            r.spec_n() == n,
            r.window() == Seq::<(E::State, E::Action, Reward)>::empty(),
            r.spec_config() == config,
            r.spec_data().q@ == Map::<(E::State, E::Action), i64>::empty(),
            r.spec_data().terminal_state == terminal_state,
    {
        NStepSarsa {
            config,
            data: TabularLearnerData::new(terminal_state),
            n,
            history: Vec::new(),
            rng: seeded_rng(seed),
        }
    }

    /// The number of steps in the window.
    pub fn window_len(&self) -> (r: usize)
        ensures
            r == self.window().len(),
    {
        self.history.len()
    }

    /// The discounted return of the window's rewards from the `from`-th on,
    /// followed by `tail`.
    fn window_return(&self, from: usize, tail: i64) -> (r: i64)
        requires
            from <= self.history@.len(),
        ensures
            r == discounted_return(
                rewards_of(self.history@.subrange(from as int, self.history@.len() as int)),
                self.config.spec_gamma(),
                tail,
            ),
    {
        let gamma = self.config.gamma();
        let ghost h = self.history@;
        let mut acc = tail;
        let mut j: usize = self.history.len();
        assert(rewards_of(h.subrange(j as int, h.len() as int)) =~= Seq::<Reward>::empty());
        while j > from
            invariant
                from <= j <= h.len(),
                h == self.history@,
                gamma == self.config.spec_gamma(),
                gamma <= RATE_ONE,
                acc == discounted_return(
                    rewards_of(h.subrange(j as int, h.len() as int)),
                    gamma,
                    tail,
                ),
            decreases j,
        {
            j = j - 1;
            acc = one_step_target(self.history[j].2, gamma, acc);
            assert(rewards_of(h.subrange(j as int, h.len() as int)).drop_first() =~= rewards_of(
                h.subrange(j + 1, h.len() as int),
            ));
        }
        acc
    }

    /// Takes `action` in `state` (the environment's current state). Unless
    /// the environment is terminal, picks the next action epsilon-greedily
    /// at the next state; if the window is full, moves the value of its
    /// oldest pair towards the discounted return of the window's rewards
    /// bootstrapped by the value of `(state, action)`, and drops that pair;
    /// then records the step. Returns the next state, the next action and
    /// the reward.
    pub fn step(&mut self, env: &mut E, state: E::State, action: E::Action) -> (r: Option<
        (E::State, E::Action, Reward),
    >)
        requires
            old(self).wf(),
            old(env).wf(),
            state == old(env).state(),
        ensures
            final(self).wf(),
            final(env).wf(),
            final(env).terminal() == old(env).terminal(),
            final(self).spec_n() == old(self).spec_n(),
            final(self).spec_config() == old(self).spec_config(),
            final(self).spec_data().terminal_state == old(self).spec_data().terminal_state,
            r is None <==> old(env).state() == old(env).terminal(),
            r is None ==> *final(env) == *old(env) && final(self).spec_data().q@ == old(
                self,
            ).spec_data().q@ && final(self).window() == old(self).window(),
            r matches Some((next_state, next_action, reward)) ==> {
                let initial = old(self).spec_config().spec_initial_q();
                let window = old(self).window();
                &&& old(env).steps_to(action, *final(env), Some((next_state, reward)))
                &&& next_state == final(env).state()
                &&& final(env).actions(next_state).contains(next_action)
                &&& old(self).spec_config().spec_epsilon() == 0 ==> exists|i: int|
                    is_first_max(
                        old(self).spec_data().action_values(
                            initial,
                            next_state,
                            final(env).actions(next_state),
                        ),
                        i,
                    ) && next_action == final(env).actions(next_state)[i]
                &&& final(self).window() == next_window(
                    old(self).spec_n(),
                    window,
                    (state, action, reward),
                )
                &&& window.len() < old(self).spec_n() ==> final(self).spec_data().q@ == old(
                    self,
                ).spec_data().q@
                &&& window.len() == old(self).spec_n() ==> final(self).spec_data().q@
                    == table_updated(
                    old(self).spec_data().q@,
                    old(self).spec_data().terminal_state,
                    initial,
                    old(self).spec_config().spec_alpha(),
                    window[0].0,
                    window[0].1,
                    discounted_return(
                        rewards_of(window),
                        old(self).spec_config().spec_gamma(),
                        old(self).spec_data().value_of(initial, state, action),
                    ),
                )
            },
    {
        match env.take_action(action) {
            None => None,
            Some((next_state, reward)) => {
                let next_action = self.data.epsilon_greedy(
                    &self.config,
                    next_state,
                    env,
                    &mut self.rng,
                );
                if self.history.len() == self.n {
                    let bootstrap = self.data.value(&self.config, state, action);
                    let target = self.window_return(0, bootstrap);
                    assert(self.history@.subrange(0, self.history@.len() as int)
                        =~= self.history@);
                    let oldest = self.history[0];
                    self.data.update(&self.config, oldest.0, oldest.1, target);
                    self.history.remove(0);
                    assert(self.history@ =~= old(self).history@.drop_first());
                }
                self.history.push((state, action, reward));
                Some((next_state, next_action, reward))
            },
        }
    }

    /// Ends the episode: each pair still in the window, oldest first, moves
    /// towards the discounted return of the rewards from its own on, with
    /// nothing bootstrapped; then the window is emptied.
    pub fn flush(&mut self)
        requires
            old(self).wf(),
        ensures
            final(self).wf(),
            final(self).spec_n() == old(self).spec_n(),
            final(self).spec_config() == old(self).spec_config(),
            final(self).spec_data().terminal_state == old(self).spec_data().terminal_state,
            final(self).window() == Seq::<(E::State, E::Action, Reward)>::empty(),
            final(self).spec_data().q@ == flushed(
                old(self).spec_data().q@,
                old(self).spec_data().terminal_state,
                old(self).spec_config().spec_initial_q(),
                old(self).spec_config().spec_alpha(),
                old(self).spec_config().spec_gamma(),
                old(self).window(),
                old(self).window().len(),
            ),
    {
        let len = self.history.len();
        let mut i: usize = 0;
        while i < len
            invariant
                i <= len,
                len == self.history@.len(),
                self.history@ == old(self).history@,
                self.n == old(self).n,
                self.config == old(self).config,
                self.data.terminal_state == old(self).data.terminal_state,
                self.data.q@ == flushed(
                    old(self).data.q@,
                    old(self).data.terminal_state,
                    old(self).config.spec_initial_q(),
                    old(self).config.spec_alpha(),
                    old(self).config.spec_gamma(),
                    old(self).history@,
                    i as nat,
                ),
            decreases len - i,
        {
            let target = self.window_return(i, 0);
            let pair = self.history[i];
            self.data.update(&self.config, pair.0, pair.1, target);
            i = i + 1;
        }
        self.history.clear();
    }
}

impl<E: Environment> TabularLearner<E> for NStepSarsa<E> where E::State: Copy, E::Action: Copy {
    /// The window never holds more than `n` steps, and `n` is at least 1.
    closed spec fn wf(&self) -> bool {
        self.n >= 1 && self.history@.len() <= self.n
    }

    closed spec fn spec_data(&self) -> TabularLearnerData<E> {
        self.data
    }

    closed spec fn spec_config(&self) -> TabularLearnerConfig {
        self.config
    }

    /// Steps as SARSA does until the environment refuses (it has
    /// terminated) or the budget is spent, then flushes the window.
    fn episode(&mut self, env: &mut E, max_steps: u32) -> (r: EpisodeOutcome)
        ensures
            final(self).window() == Seq::<(E::State, E::Action, Reward)>::empty(),
            final(self).spec_n() == old(self).spec_n(),
            exists|
                envs: Seq<E>,
                actions: Seq<E::Action>,
                rewards: Seq<Reward>,
                tables: Seq<Map<(E::State, E::Action), i64>>,
                windows: Seq<Seq<(E::State, E::Action, Reward)>>,
            |
                #[trigger] n_step_tables(
                    tables,
                    windows,
                    old(self).spec_n(),
                    old(env).terminal(),
                    old(self).spec_config(),
                    envs,
                    actions,
                    rewards,
                ) && is_run(envs, actions, rewards) && envs[0] == *old(env) && envs.last()
                    == *final(env) && rewards.len() == r.steps && r.gain == sum_of(rewards)
                    && starts_live(envs, r.steps as int) && tables[0] == old(
                    self,
                ).spec_data().q@ && windows[0] == old(self).window()
                    && (old(self).window().len() == 0 && r.steps <= old(self).spec_n()
                    ==> final(self).spec_data().q@ == flushed(
                    old(self).spec_data().q@,
                    old(env).terminal(),
                    old(self).spec_config().spec_initial_q(),
                    old(self).spec_config().spec_alpha(),
                    old(self).spec_config().spec_gamma(),
                    run_steps(envs, actions, rewards),
                    r.steps as nat,
                )) && final(self).spec_data().q@ == flushed(
                    tables.last(),
                    old(env).terminal(),
                    old(self).spec_config().spec_initial_q(),
                    old(self).spec_config().spec_alpha(),
                    old(self).spec_config().spec_gamma(),
                    windows.last(),
                    windows.last().len(),
                ),
    {
        self.data.terminal_state = env.get_terminal();
        let mut state = env.current_state();
        let mut action = self.data.epsilon_greedy(&self.config, state, env, &mut self.rng);
        let mut gain: i64 = 0;
        let mut steps: u32 = 0;
        let ghost mut envs: Seq<E> = seq![*env];
        let ghost mut actions: Seq<E::Action> = Seq::empty();
        let ghost mut rewards: Seq<Reward> = Seq::empty();
        let ghost mut tables: Seq<Map<(E::State, E::Action), i64>> = seq![self.data.q@];
        let ghost mut windows: Seq<Seq<(E::State, E::Action, Reward)>> = seq![self.history@];
        assert(is_run(envs, actions, rewards));
        while steps < max_steps && !env.terminated()
            invariant
                self.wf(),
                self.n == old(self).n,
                env.wf(),
                env.terminal() == old(env).terminal(),
                state == env.state(),
                self.data.terminal_state == old(env).terminal(),
                self.config == old(self).config,
                steps <= max_steps,
                gain_in_range(gain as int, steps as int),
                is_run(envs, actions, rewards),
                envs[0] == *old(env),
                envs.last() == *env,
                rewards.len() == steps,
                gain == sum_of(rewards),
                starts_live(envs, steps as int),
                n_step_tables(
                    tables,
                    windows,
                    self.n,
                    old(env).terminal(),
                    old(self).config,
                    envs,
                    actions,
                    rewards,
                ),
                tables[0] == old(self).data.q@,
                tables.last() == self.data.q@,
                windows[0] == old(self).history@,
                windows.last() == self.history@,
                old(self).history@.len() == 0 && steps <= self.n ==> self.history@ == run_steps(
                    envs,
                    actions,
                    rewards,
                ) && self.data.q@ == old(self).data.q@,
                old(env).state() == old(env).terminal() ==> steps == 0 && gain == 0 && *env
                    == *old(env),
            decreases max_steps - steps,
        {
            match self.step(env, state, action) {
                None => {
                    proof {
                        assert(false);
                    }
                },
                Some((next_state, next_action, reward)) => {
                    proof {
                        lemma_live_push(envs, *env);
                        lemma_run_push(envs, actions, rewards, action, *env, reward);
                        let tables2 = tables.push(self.data.q@);
                        let windows2 = windows.push(self.history@);
                        let envs2 = envs.push(*env);
                        let actions2 = actions.push(action);
                        let rewards2 = rewards.push(reward);
                        assert(run_steps(envs2, actions2, rewards2) =~= run_steps(
                            envs,
                            actions,
                            rewards,
                        ).push((state, action, reward)));
                        assert forall|i: int| 0 <= i < actions2.len() implies {
                            &&& windows2[i + 1] == next_window(
                                self.n,
                                windows2[i],
                                (envs2[i].state(), #[trigger] actions2[i], rewards2[i]),
                            )
                            &&& tables2[i + 1] == window_learned(
                                tables2[i],
                                old(env).terminal(),
                                old(self).config,
                                self.n,
                                windows2[i],
                                envs2[i].state(),
                                actions2[i],
                            )
                        } by {
                            if i < actions.len() {
                                assert(actions[i] == actions2[i]);
                            }
                        }
                        tables = tables2;
                        windows = windows2;
                        envs = envs.push(*env);
                        actions = actions.push(action);
                        rewards = rewards.push(reward);
                    }
                    gain = add_reward(gain, steps, reward);
                    steps = steps + 1;
                    state = next_state;
                    action = next_action;
                },
            }
        }
        self.flush();
        assert(is_run(envs, actions, rewards));
        EpisodeOutcome { gain, steps }
    }

    fn data(&self) -> (r: &TabularLearnerData<E>) {
        &self.data
    }

    fn config(&self) -> (r: &TabularLearnerConfig) {
        &self.config
    }

    fn set_config(&mut self, config: TabularLearnerConfig) {
        self.config = config;
    }
}

} // verus!
