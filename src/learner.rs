//! The shared core of the tabular learners: configuration, the state-action
//! value table, the temporal-difference update and the epsilon-greedy rule.
//!
//! Values are fixed-point: a value `v` stands for `v / VALUE_ONE` units of
//! reward. Rates (learning rate, exploration rate, discount) are parts per
//! `RATE_ONE`. Products are truncated towards zero.

use vstd::prelude::*;

use rand::rngs::StdRng;

use crate::environment::{Environment, Reward};
use crate::random::draw_below;
use crate::table::PairTable;

pub use self::dyna_q::DynaQ;
pub use self::n_step_sarsa::NStepSarsa;
pub use self::q_learning::QLearning;
pub use self::sarsa::Sarsa;

pub mod dyna_q;
pub mod n_step_sarsa;
pub mod q_learning;
pub mod sarsa;

verus! {

/// The rate that stands for 1.
pub const RATE_ONE: u32 = 1_000_000;

/// The value that stands for one unit of reward.
pub const VALUE_ONE: i64 = 1_000_000;

/// A reward as a value.
pub open spec fn scaled(r: Reward) -> int {
    r * VALUE_ONE
}

/// `v` scaled by `rate / RATE_ONE`, truncated towards zero.
pub open spec fn discounted(rate: u32, v: int) -> int {
    if v >= 0 {
        (rate * v) / (RATE_ONE as int)
    } else {
        -((rate * -v) / (RATE_ONE as int))
    }
}

/// `v` clamped to the range of `i64`.
pub open spec fn saturate(v: int) -> i64 {
    if v > i64::MAX {
        i64::MAX
    } else if v < i64::MIN {
        i64::MIN
    } else {
        v as i64
    }
}

/// The temporal-difference step: `v` moved towards `target` by the fraction
/// `alpha / RATE_ONE` of the distance, rounded towards `v`.
pub open spec fn td_step(v: i64, target: i64, alpha: u32) -> i64 {
    if target >= v {
        (v + (alpha * (target - v)) / (RATE_ONE as int)) as i64
    } else {
        (v - (alpha * (v - target)) / (RATE_ONE as int)) as i64
    }
}

/// The one-step bootstrap target `reward + gamma * next`, saturated.
pub open spec fn bootstrap_target(reward: Reward, gamma: u32, next: i64) -> i64 {
    saturate(scaled(reward) + discounted(gamma, next as int))
}

/// The discounted return of `rewards`, oldest first, followed by `tail`:
/// `r0 + gamma * (r1 + gamma * (... + gamma * tail))`, each partial sum
/// saturated.
pub open spec fn discounted_return(rewards: Seq<Reward>, gamma: u32, tail: i64) -> i64
    decreases rewards.len(),
{
    if rewards.len() == 0 {
        tail
    } else {
        bootstrap_target(rewards[0], gamma, discounted_return(rewards.drop_first(), gamma, tail))
    }
}

/// `i` indexes the first greatest element of `values`.
pub open spec fn is_first_max(values: Seq<i64>, i: int) -> bool {
    &&& 0 <= i < values.len()
    &&& forall|j: int| 0 <= j < values.len() ==> values[j] <= values[i]
    &&& forall|j: int| 0 <= j < i ==> values[j] < values[i]
}

/// The greatest element of a non-empty `values`.
pub open spec fn max_value(values: Seq<i64>) -> i64 {
    values[choose|i: int| is_first_max(values, i)]
}

proof fn lemma_first_max_unique(values: Seq<i64>, i: int, j: int)
    requires
        is_first_max(values, i),
        is_first_max(values, j),
    ensures
        i == j,
{
    if i < j {
        assert(values[i] < values[j]);
    } else if j < i {
        assert(values[j] < values[i]);
    }
}

/// A first greatest element, when there is one, gives `max_value`.
proof fn lemma_max_value(values: Seq<i64>, i: int)
    requires
        is_first_max(values, i),
    ensures
        max_value(values) == values[i],
{
    let k = choose|k: int| is_first_max(values, k);
    lemma_first_max_unique(values, i, k);
}

/// The temporal-difference step contracts the distance to the target by the
/// factor `1 - alpha`: the new distance is the old one less
/// `alpha * distance` (rounded down), so it lies within one unit above
/// `(1 - alpha) * distance`, and equals it when the product is whole.
pub proof fn lemma_td_contraction(v: i64, target: i64, alpha: u32)
    requires
        0 < alpha <= RATE_ONE,
    ensures
        ({
            let d = if target >= v { target - v } else { v - target };
            let e = {
                let n = td_step(v, target, alpha);
                if target >= n { target - n } else { n - target }
            };
            &&& e == d - (alpha * d) / (RATE_ONE as int)
            &&& e <= d
            &&& RATE_ONE * e >= (RATE_ONE - alpha) * d
            &&& RATE_ONE * e < (RATE_ONE - alpha) * d + RATE_ONE
            &&& (alpha * d) % (RATE_ONE as int) == 0 ==> RATE_ONE * e == (RATE_ONE - alpha) * d
            &&& (target - v > 0 ==> (target - td_step(v, target, alpha) >= 0))
            &&& (v - target > 0 ==> (td_step(v, target, alpha) - target >= 0))
        }),
{
    let d: int = if target >= v { target - v } else { v - target };
    let one = RATE_ONE as int;
    let q = (alpha * d) / one;
    let n = td_step(v, target, alpha);
    assert(0 <= q <= d) by (nonlinear_arith)
        requires
            0 <= d,
            0 < alpha <= one,
            one == 1_000_000,
            q == (alpha * d) / one,
    {
        assert(alpha * d <= one * d);
    }
    assert(one * (d - q) >= (one - alpha) * d && one * (d - q) < (one - alpha) * d + one)
        by (nonlinear_arith)
        requires
            0 <= d,
            one == 1_000_000,
            q == (alpha * d) / one,
    {
        let m = (alpha * d) % one;
        assert(alpha * d == one * q + m);
    }
    assert((alpha * d) % one == 0 ==> one * (d - q) == (one - alpha) * d) by (nonlinear_arith)
        requires
            one == 1_000_000,
            q == (alpha * d) / one,
    {
        assert(alpha * d == one * q + (alpha * d) % one);
    }
    if target >= v {
        assert(n == v + q);
        assert(target - n == d - q);
    } else {
        assert(n == v - q);
        assert(n - target == d - q);
    }
}

/// `rate / RATE_ONE` of `v`, truncated towards zero.
fn discount(rate: u32, v: i128) -> (r: i128)
    requires
        rate <= RATE_ONE,
        -0x10_0000_0000_0000_0000_0000_0000 < v < 0x10_0000_0000_0000_0000_0000_0000,
    ensures
        r == discounted(rate, v as int),
        -(if v >= 0 { v as int } else { -v }) <= r <= (if v >= 0 { v as int } else { -v }),
{
    let m: u128 = if v >= 0 { v as u128 } else { (-v) as u128 };
    assert(rate * m <= RATE_ONE * m && RATE_ONE * m < 0x1_0000_0000_0000_0000_0000_0000_0000_0000)
        by (nonlinear_arith)
        requires
            rate <= RATE_ONE,
            m < 0x10_0000_0000_0000_0000_0000_0000,
    ;
    let p: u128 = (rate as u128) * m;
    let q: u128 = p / (RATE_ONE as u128);
    assert(q <= m) by (nonlinear_arith)
        requires
            p <= RATE_ONE * m,
            q == p / (RATE_ONE as u128),
    ;
    if v >= 0 {
        q as i128
    } else {
        -(q as i128)
    }
}

/// `v` clamped to the range of `i64`.
fn saturating(v: i128) -> (r: i64)
    ensures
        r == saturate(v as int),
{
    if v > i64::MAX as i128 {
        i64::MAX
    } else if v < i64::MIN as i128 {
        i64::MIN
    } else {
        v as i64
    }
}

/// The temporal-difference step of `v` towards `target`.
pub fn td_update(v: i64, target: i64, alpha: u32) -> (r: i64)
    requires
        alpha <= RATE_ONE,
    ensures
        r == td_step(v, target, alpha),
{
    let d: u128 = if target >= v {
        (target as i128 - v as i128) as u128
    } else {
        (v as i128 - target as i128) as u128
    };
    assert(alpha * d <= RATE_ONE * d) by (nonlinear_arith)
        requires
            alpha <= RATE_ONE,
    ;
    let p: u128 = (alpha as u128) * d;
    let q: u128 = p / (RATE_ONE as u128);
    assert(q <= d) by (nonlinear_arith)
        requires
            p <= RATE_ONE * d,
            q == p / (RATE_ONE as u128),
    ;
    if target >= v {
        (v as i128 + q as i128) as i64
    } else {
        (v as i128 - q as i128) as i64
    }
}

/// The one-step bootstrap target `reward + gamma * next`, saturated.
pub fn one_step_target(reward: Reward, gamma: u32, next: i64) -> (r: i64)
    requires
        gamma <= RATE_ONE,
    ensures
        r == bootstrap_target(reward, gamma, next),
{
    let d = discount(gamma, next as i128);
    saturating(scale(reward) + d)
}

/// A reward as a value.
fn scale(r: Reward) -> (v: i128)
    ensures
        v == scaled(r),
        -0x10_0000_0000_0000 < v < 0x10_0000_0000_0000,
{
    (r as i128) * 1_000_000
}

/// The index of the first greatest element of `values`: the action that a
/// stable sort by decreasing value would put first.
pub fn greedy_index(values: &Vec<i64>) -> (r: usize)
    requires
        values@.len() > 0,
    ensures
        is_first_max(values@, r as int),
{
    let mut best: usize = 0;
    let mut i: usize = 1;
    while i < values.len()
        invariant
            1 <= i <= values@.len(),
            is_first_max(values@.subrange(0, i as int), best as int),
        decreases values@.len() - i,
    {
        if values[i] > values[best] {
            best = i;
        }
        i = i + 1;
    }
    assert(values@.subrange(0, i as int) =~= values@);
    best
}

/// In a stable sort by decreasing value, index `a` comes before index `b`.
pub open spec fn ranks_before(values: Seq<i64>, a: int, b: int) -> bool {
    values[a] > values[b] || (values[a] == values[b] && a < b)
}

/// `order` lists the indices of `values` as a stable sort by decreasing
/// value does: every index once, greater values first, equal values in
/// their original order.
pub open spec fn is_stable_desc_order(values: Seq<i64>, order: Seq<usize>) -> bool {
    &&& order.len() == values.len()
    &&& forall|k: int| 0 <= k < order.len() ==> #[trigger] order[k] < values.len()
    &&& forall|k: int, l: int|
        #![trigger order[k], order[l]]
        0 <= k < l < order.len() ==> ranks_before(values, order[k] as int, order[l] as int)
}

/// The indices of `values` in the order of a stable sort by decreasing value.
pub fn stable_desc_order(values: &Vec<i64>) -> (r: Vec<usize>)
    ensures
        is_stable_desc_order(values@, r@),
{
    let mut order: Vec<usize> = Vec::new();
    let mut i: usize = 0;
    while i < values.len()
        invariant
            i <= values@.len(),
            order@.len() == i,
            forall|k: int| 0 <= k < order@.len() ==> #[trigger] order@[k] < i,
            forall|k: int, l: int|
                #![trigger order@[k], order@[l]]
                0 <= k < l < order@.len() ==> ranks_before(
                    values@,
                    order@[k] as int,
                    order@[l] as int,
                ),
        decreases values@.len() - i,
    {
        let mut p: usize = 0;
        while p < order.len() && values[order[p]] >= values[i]
            invariant
                p <= order@.len(),
                i < values@.len(),
                forall|k: int| 0 <= k < order@.len() ==> #[trigger] order@[k] < i,
                forall|k: int|
                    0 <= k < p ==> ranks_before(values@, #[trigger] order@[k] as int, i as int),
            decreases order@.len() - p,
        {
            p = p + 1;
        }
        let ghost before = order@;
        proof {
            if p < before.len() {
                assert(values@[before[p as int] as int] < values@[i as int]);
                assert forall|l: int| p <= l < before.len() implies ranks_before(
                    values@,
                    i as int,
                    #[trigger] before[l] as int,
                ) by {
                    if l > p {
                        assert(ranks_before(values@, before[p as int] as int, before[l] as int));
                    }
                }
            }
        }
        order.insert(p, i);
        proof {
            let after = order@;
            assert(after =~= before.insert(p as int, i));
            assert forall|k: int| 0 <= k < after.len() implies #[trigger] after[k] < i + 1 by {
                if k < p {
                    assert(after[k] == before[k]);
                } else if k > p {
                    assert(after[k] == before[k - 1]);
                }
            }
            assert forall|k: int, l: int|
                #![trigger after[k], after[l]]
                0 <= k < l < after.len() implies ranks_before(
                values@,
                after[k] as int,
                after[l] as int,
            ) by {
                if k < p {
                    assert(after[k] == before[k]);
                    if l < p {
                        assert(after[l] == before[l]);
                    } else if l > p {
                        assert(after[l] == before[l - 1]);
                    }
                } else if k == p {
                    assert(after[l] == before[l - 1]);
                } else {
                    assert(after[k] == before[k - 1]);
                    assert(after[l] == before[l - 1]);
                }
            }
        }
        i = i + 1;
    }
    order
}

/// The epsilon-greedy choice among `values` given the draws: when the coin
/// (drawn below `RATE_ONE`) falls under `epsilon` and `pick` is a valid
/// position, the index at position `pick` of the stable order by
/// decreasing value; else the greedy index, which that order puts first.
pub fn select_index(values: &Vec<i64>, epsilon: u32, coin: u64, pick: u64) -> (r: usize)
    requires
        values@.len() > 0,
    ensures
        r < values@.len(),
        coin < epsilon && pick < values@.len() ==> exists|order: Seq<usize>|
            #[trigger] is_stable_desc_order(values@, order) && r == order[pick as int],
        !(coin < epsilon && pick < values@.len()) ==> is_first_max(values@, r as int),
{
    if coin < epsilon as u64 && pick < values.len() as u64 {
        let order = stable_desc_order(values);
        order[pick as usize]
    } else {
        greedy_index(values)
    }
}

/// Hyperparameters of a learner, as parts per `RATE_ONE`: learning rate in
/// `(0, 1]`, exploration rate and discount in `[0, 1]`; and the value of
/// pairs not yet in the table.
#[derive(Clone, Copy)]
pub struct TabularLearnerConfig {
    alpha: u32,
    epsilon: u32,
    gamma: u32,
    debug: bool,
    initial_q: i64,
}

impl TabularLearnerConfig {
    #[verifier::type_invariant]
    closed spec fn rates_in_range(self) -> bool {
        &&& 0 < self.alpha <= RATE_ONE
        &&& self.epsilon <= RATE_ONE
        &&& self.gamma <= RATE_ONE
    }

    pub closed spec fn spec_alpha(&self) -> u32 {
        self.alpha
    }

    pub closed spec fn spec_epsilon(&self) -> u32 {
        self.epsilon
    }

    pub closed spec fn spec_gamma(&self) -> u32 {
        self.gamma
    }

    pub closed spec fn spec_debug(&self) -> bool {
        self.debug
    }

    pub closed spec fn spec_initial_q(&self) -> i64 {
        self.initial_q
    }

    pub fn new(alpha: u32, epsilon: u32, gamma: u32, initial_q: i64) -> (r: TabularLearnerConfig)
        requires
            0 < alpha <= RATE_ONE,
            epsilon <= RATE_ONE,
            gamma <= RATE_ONE,
        ensures
            r.spec_alpha() == alpha,
            r.spec_epsilon() == epsilon,
            r.spec_gamma() == gamma,
            r.spec_initial_q() == initial_q,
            !r.spec_debug(),
    {
        TabularLearnerConfig { alpha, epsilon, gamma, debug: false, initial_q }
    }

    /// Learning rate.
    pub fn alpha(&self) -> (r: u32)
        ensures
            r == self.spec_alpha(),
            0 < r <= RATE_ONE,
    {
        proof {
            use_type_invariant(self);
        }
        self.alpha
    }

    /// Exploration rate.
    pub fn epsilon(&self) -> (r: u32)
        ensures
            r == self.spec_epsilon(),
            r <= RATE_ONE,
    {
        proof {
            use_type_invariant(self);
        }
        self.epsilon
    }

    /// Discount factor.
    pub fn gamma(&self) -> (r: u32)
        ensures
            r == self.spec_gamma(),
            r <= RATE_ONE,
    {
        proof {
            use_type_invariant(self);
        }
        self.gamma
    }

    /// Whether episodes are to be reported step by step.
    pub fn debug(&self) -> (r: bool)
        ensures
            r == self.spec_debug(),
    {
        self.debug
    }

    /// Value of pairs not yet in the table.
    pub fn initial_q(&self) -> (r: i64)
        ensures
            r == self.spec_initial_q(),
    {
        self.initial_q
    }

    pub fn set_alpha(&mut self, alpha: u32)
        requires
            0 < alpha <= RATE_ONE,
        ensures
            final(self).spec_alpha() == alpha,
            final(self).spec_epsilon() == old(self).spec_epsilon(),
            final(self).spec_gamma() == old(self).spec_gamma(),
            final(self).spec_debug() == old(self).spec_debug(),
            final(self).spec_initial_q() == old(self).spec_initial_q(),
    {
        proof {
            use_type_invariant(&*self);
        }
        self.alpha = alpha;
    }

    pub fn set_epsilon(&mut self, epsilon: u32)
        requires
            epsilon <= RATE_ONE,
        ensures
            final(self).spec_epsilon() == epsilon,
            final(self).spec_alpha() == old(self).spec_alpha(),
            final(self).spec_gamma() == old(self).spec_gamma(),
            final(self).spec_debug() == old(self).spec_debug(),
            final(self).spec_initial_q() == old(self).spec_initial_q(),
    {
        proof {
            use_type_invariant(&*self);
        }
        self.epsilon = epsilon;
    }

    pub fn set_debug(&mut self, debug: bool)
        ensures
            final(self).spec_debug() == debug,
            final(self).spec_alpha() == old(self).spec_alpha(),
            final(self).spec_epsilon() == old(self).spec_epsilon(),
            final(self).spec_gamma() == old(self).spec_gamma(),
            final(self).spec_initial_q() == old(self).spec_initial_q(),
    {
        proof {
            use_type_invariant(&*self);
        }
        self.debug = debug;
    }
}


/// The value of `(s, a)` in `table`: 0 at the terminal state, the stored
/// value if there is one, else `initial`.
pub open spec fn table_value<S, A>(
    table: Map<(S, A), i64>,
    terminal: S,
    initial: i64,
    s: S,
    a: A,
) -> i64 {
    if s == terminal {
        0
    } else if table.contains_key((s, a)) {
        table[(s, a)]
    } else {
        initial
    }
}

/// `table` after the temporal-difference update of `(s, a)` towards `target`.
pub open spec fn table_updated<S, A>(
    table: Map<(S, A), i64>,
    terminal: S,
    initial: i64,
    alpha: u32,
    s: S,
    a: A,
    target: i64,
) -> Map<(S, A), i64> {
    table.insert((s, a), td_step(table_value(table, terminal, initial, s, a), target, alpha))
}

/// The values in `table` of `actions` at `s`.
pub open spec fn table_action_values<S, A>(
    table: Map<(S, A), i64>,
    terminal: S,
    initial: i64,
    s: S,
    actions: Seq<A>,
) -> Seq<i64> {
    actions.map_values(|a: A| table_value(table, terminal, initial, s, a))
}

/// `table` after the update of `(s, a)` towards `target` with the learning
/// rate and initial value of `config`.
pub open spec fn learned<S, A>(
    table: Map<(S, A), i64>,
    terminal: S,
    config: TabularLearnerConfig,
    s: S,
    a: A,
    target: i64,
) -> Map<(S, A), i64> {
    table_updated(table, terminal, config.spec_initial_q(), config.spec_alpha(), s, a, target)
}

/// The off-policy target `reward + gamma * (greatest value in `table`
/// among the actions that `env` offers at `next_state`)`.
pub open spec fn greedy_target<E: Environment>(
    table: Map<(E::State, E::Action), i64>,
    terminal: E::State,
    config: TabularLearnerConfig,
    env: E,
    reward: Reward,
    next_state: E::State,
) -> i64 {
    bootstrap_target(
        reward,
        config.spec_gamma(),
        max_value(
            table_action_values(
                table,
                terminal,
                config.spec_initial_q(),
                next_state,
                env.actions(next_state),
            ),
        ),
    )
}

/// The state-action value table of a learner, with the terminal state whose
/// values are 0.
pub struct TabularLearnerData<E: Environment> {
    pub q: PairTable<E, i64>,
    pub terminal_state: E::State,
}

impl<E: Environment> TabularLearnerData<E> where E::State: Copy, E::Action: Copy {
    /// The value of `(s, a)` when unseen pairs are worth `initial`.
    pub open spec fn value_of(&self, initial: i64, s: E::State, a: E::Action) -> i64 {
        table_value(self.q@, self.terminal_state, initial, s, a)
    }

    /// The values of `actions` at `s`.
    pub open spec fn action_values(
        &self,
        initial: i64,
        s: E::State,
        actions: Seq<E::Action>,
    ) -> Seq<i64> {
        table_action_values(self.q@, self.terminal_state, initial, s, actions)
    }

    pub fn new(terminal_state: E::State) -> (r: TabularLearnerData<E>)
        ensures
            r.q@ == Map::<(E::State, E::Action), i64>::empty(),
            r.terminal_state == terminal_state,
    {
        TabularLearnerData { q: PairTable::new(), terminal_state }
    }

    /// The value of `(state, action)`; 0 whenever `state` is terminal.
    pub fn value(&self, config: &TabularLearnerConfig, state: E::State, action: E::Action) -> (r:
        i64)
        ensures
            r == self.value_of(config.spec_initial_q(), state, action),
            state == self.terminal_state ==> r == 0,
    {
        if E::same_state(&state, &self.terminal_state) {
            0
        } else {
            match self.q.get(&state, &action) {
                Some(v) => v,
                None => config.initial_q(),
            }
        }
    }

    pub fn set_value(&mut self, state: E::State, action: E::Action, value: i64)
        ensures
            final(self).q@ == old(self).q@.insert((state, action), value),
            final(self).terminal_state == old(self).terminal_state,
            old(self).q.wf() ==> final(self).q.wf(),
    {
        self.q.insert(state, action, value);
    }

    /// Moves the value of `(state, action)` towards `target` by the learning
    /// rate: `v + alpha * (target - v)`.
    pub fn update(
        &mut self,
        config: &TabularLearnerConfig,
        state: E::State,
        action: E::Action,
        target: i64,
    )
        ensures
            final(self).q@ == table_updated(
                old(self).q@,
                old(self).terminal_state,
                config.spec_initial_q(),
                config.spec_alpha(),
                state,
                action,
                target,
            ),
            final(self).terminal_state == old(self).terminal_state,
            old(self).q.wf() ==> final(self).q.wf(),
    {
        let current_value = self.value(config, state, action);
        let alpha = config.alpha();
        self.set_value(state, action, td_update(current_value, target, alpha));
    }

    /// The values of `actions` at `state`.
    fn values_of(
        &self,
        config: &TabularLearnerConfig,
        state: E::State,
        actions: &Vec<E::Action>,
    ) -> (r: Vec<i64>)
        ensures
            r@ == self.action_values(config.spec_initial_q(), state, actions@),
    {
        let mut r: Vec<i64> = Vec::new();
        let mut i: usize = 0;
        while i < actions.len()
            invariant
                i <= actions@.len(),
                r@ =~= self.action_values(
                    config.spec_initial_q(),
                    state,
                    actions@.subrange(0, i as int),
                ),
            decreases actions@.len() - i,
        {
            let v = self.value(config, state, actions[i]);
            r.push(v);
            i = i + 1;
            assert(r@ =~= self.action_values(
                config.spec_initial_q(),
                state,
                actions@.subrange(0, i as int),
            ));
        }
        assert(actions@.subrange(0, i as int) =~= actions@);
        r
    }

    /// An action available at `from`: with probability epsilon one drawn
    /// uniformly from all of them, else the first of greatest value.
    pub fn epsilon_greedy(
        &self,
        config: &TabularLearnerConfig,
        from: E::State,
        env: &E,
        rng: &mut StdRng,
    ) -> (r: E::Action)
        requires
            env.wf(),
        ensures
            env.actions(from).contains(r),
            config.spec_epsilon() == 0 ==> exists|i: int|
                is_first_max(
                    self.action_values(config.spec_initial_q(), from, env.actions(from)),
                    i,
                ) && r == env.actions(from)[i],
    {
        let available = env.available_actions(from);
        let values = self.values_of(config, from, &available);
        let epsilon = config.epsilon();
        let coin = draw_below(rng, RATE_ONE as u64);
        let pick = if coin < epsilon as u64 {
            draw_below(rng, available.len() as u64)
        } else {
            0
        };
        let i = select_index(&values, epsilon, coin, pick);
        available[i]
    }

    /// The greatest value among the actions available at `state`.
    pub fn max_action_value(&self, config: &TabularLearnerConfig, state: E::State, env: &E) -> (r:
        i64)
        requires
            env.wf(),
        ensures
            r == max_value(self.action_values(config.spec_initial_q(), state, env.actions(state))),
    {
        let available = env.available_actions(state);
        let values = self.values_of(config, state, &available);
        let i = greedy_index(&values);
        proof {
            lemma_max_value(values@, i as int);
        }
        values[i]
    }
}

/// The values at the terminal state are 0, whatever the table holds.
pub proof fn lemma_terminal_value_zero<E: Environment>(
    data: TabularLearnerData<E>,
    initial: i64,
    action: E::Action,
) where E::State: Copy, E::Action: Copy
    ensures
        data.value_of(initial, data.terminal_state, action) == 0,
{
}

/// One real transition: from `state`, `action` led to `next_state` and
/// paid `reward`.
pub struct Transition<S, A> {
    pub state: S,
    pub action: A,
    pub next_state: S,
    pub reward: Reward,
}

/// What one episode did: the undiscounted sum of its rewards and the number
/// of steps taken.
pub struct EpisodeOutcome {
    pub gain: i64,
    pub steps: u32,
}

/// The sum of `rewards`.
pub open spec fn sum_of(rewards: Seq<Reward>) -> int
    decreases rewards.len(),
{
    if rewards.len() == 0 {
        0
    } else {
        sum_of(rewards.drop_last()) + rewards.last()
    }
}

/// `envs` is a run of the environment: step `i` takes `actions[i]` in
/// `envs[i]`, leads to `envs[i + 1]` and pays `rewards[i]`.
pub open spec fn is_run<E: Environment>(
    envs: Seq<E>,
    actions: Seq<E::Action>,
    rewards: Seq<Reward>,
) -> bool {
    &&& envs.len() == actions.len() + 1
    &&& rewards.len() == actions.len()
    &&& forall|i: int|
        0 <= i < actions.len() ==> envs[i].steps_to(
            #[trigger] actions[i],
            envs[i + 1],
            Some((envs[i + 1].state(), rewards[i])),
        )
}

/// A run extended by one more step is a run.
pub proof fn lemma_run_push<E: Environment>(
    envs: Seq<E>,
    actions: Seq<E::Action>,
    rewards: Seq<Reward>,
    action: E::Action,
    after: E,
    reward: Reward,
)
    requires
        is_run(envs, actions, rewards),
        envs.last().steps_to(action, after, Some((after.state(), reward))),
    ensures
        is_run(envs.push(after), actions.push(action), rewards.push(reward)),
        sum_of(rewards.push(reward)) == sum_of(rewards) + reward,
{
    let e2 = envs.push(after);
    let a2 = actions.push(action);
    let r2 = rewards.push(reward);
    assert forall|i: int| 0 <= i < a2.len() implies e2[i].steps_to(
        #[trigger] a2[i],
        e2[i + 1],
        Some((e2[i + 1].state(), r2[i])),
    ) by {
        if i < actions.len() {
            assert(a2[i] == actions[i]);
            assert(envs[i].steps_to(
                actions[i],
                envs[i + 1],
                Some((envs[i + 1].state(), rewards[i])),
            ));
        }
    }
    assert(r2.drop_last() =~= rewards);
}

/// The steps of a run as `(state, action, reward)`, oldest first.
pub open spec fn run_steps<E: Environment>(
    envs: Seq<E>,
    actions: Seq<E::Action>,
    rewards: Seq<Reward>,
) -> Seq<(E::State, E::Action, Reward)> {
    Seq::new(actions.len(), |i: int| (envs[i].state(), actions[i], rewards[i]))
}

/// The state-action pairs taken in a run.
pub open spec fn run_pairs<E: Environment>(envs: Seq<E>, actions: Seq<E::Action>) -> Set<
    (E::State, E::Action),
> {
    Set::new(
        |p: (E::State, E::Action)|
            exists|i: int| 0 <= i < actions.len() && p == (envs[i].state(), #[trigger] actions[i]),
    )
}

/// The first `count` environments of `envs` are not at their terminal
/// state: each of those steps started from a live state.
pub open spec fn starts_live<E: Environment>(envs: Seq<E>, count: int) -> bool {
    forall|i: int| 0 <= i < count ==> #[trigger] envs[i].state() != envs[i].terminal()
}

/// A run that started each step from a live state, extended by a step from
/// a live state, still does.
pub proof fn lemma_live_push<E: Environment>(envs: Seq<E>, after: E)
    requires
        envs.len() > 0,
        starts_live(envs, envs.len() - 1),
        envs.last().state() != envs.last().terminal(),
    ensures
        starts_live(envs.push(after), envs.len() as int),
{
    let e2 = envs.push(after);
    assert forall|i: int|
        0 <= i < envs.len() implies #[trigger] e2[i].state() != e2[i].terminal() by {
        assert(e2[i] == envs[i]);
    }
}

/// The bounds of a sum of `steps` rewards.
pub open spec fn gain_in_range(gain: int, steps: int) -> bool {
    -steps * 0x8000_0000 <= gain <= steps * 0x7fff_ffff
}

/// Adds one reward to a running gain.
pub(crate) fn add_reward(gain: i64, steps: u32, reward: Reward) -> (r: i64)
    requires
        gain_in_range(gain as int, steps as int),
        steps < u32::MAX,
    ensures
        r == gain + reward,
        gain_in_range(r as int, steps + 1),
{
    assert(gain_in_range(gain + reward, steps + 1));
    assert(-(steps + 1) * 0x8000_0000 >= -0x8000_0000_0000_0000) by (nonlinear_arith)
        requires
            steps < 0x1_0000_0000,
    ;
    assert((steps + 1) * 0x7fff_ffff <= 0x7fff_ffff_ffff_ffff) by (nonlinear_arith)
        requires
            steps < 0x1_0000_0000,
    ;
    gain + reward as i64
}

/// A tabular learner: it plays episodes on an environment of type `E` and
/// learns a state-action value table from them.
pub trait TabularLearner<E: Environment> where E::State: Copy, E::Action: Copy {
    /// Invariant of the learner's own state.
    spec fn wf(&self) -> bool;

    spec fn spec_data(&self) -> TabularLearnerData<E>;

    spec fn spec_config(&self) -> TabularLearnerConfig;

    /// Plays one episode from the environment's current state, for at most
    /// `max_steps` steps, learning as it goes. It stops early exactly when
    /// the terminal state is reached; an environment that is already
    /// terminal is left as it is. The gain is the sum of the rewards along
    /// the run of the environment that the episode made.
    fn episode(&mut self, env: &mut E, max_steps: u32) -> (r: EpisodeOutcome)
        requires
            old(self).wf(),
            old(env).wf(),
        ensures
            final(self).wf(),
            final(env).wf(),
            final(env).terminal() == old(env).terminal(),
            final(self).spec_data().terminal_state == old(env).terminal(),
            final(self).spec_config() == old(self).spec_config(),
            r.steps <= max_steps,
            r.steps < max_steps ==> final(env).state() == final(env).terminal(),
            exists|envs: Seq<E>, actions: Seq<E::Action>, rewards: Seq<Reward>|
                #[trigger] is_run(envs, actions, rewards) && envs[0] == *old(env) && envs.last()
                    == *final(env) && rewards.len() == r.steps && r.gain == sum_of(rewards),
            old(env).state() == old(env).terminal() ==> r.steps == 0 && r.gain == 0
                && *final(env) == *old(env),
            gain_in_range(r.gain as int, r.steps as int),
    ;

    fn data(&self) -> (r: &TabularLearnerData<E>)
        ensures
            *r == self.spec_data(),
    ;

    fn config(&self) -> (r: &TabularLearnerConfig)
        ensures
            *r == self.spec_config(),
    ;

    /// Replaces the configuration, as a driver does between episodes.
    fn set_config(&mut self, config: TabularLearnerConfig)
        requires
            old(self).wf(),
        ensures
            final(self).wf(),
            final(self).spec_config() == config,
            final(self).spec_data() == old(self).spec_data(),
    ;
}

} // verus!
