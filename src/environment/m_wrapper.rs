//! A decorator that gives the agent one bit of memory: each action also
//! flips or keeps the bit, and the bit is part of the observed state.

use vstd::prelude::*;

use crate::environment::{Environment, Reward, MDP};

verus! {

/// What an action does to the memory bit.
#[derive(Copy, Clone, Hash, PartialEq, Eq, Debug, PartialOrd, Ord, Structural)]
pub enum MAction {
    Flip,
    Noop,
}

/// The memory value that marks the wrapped environment as terminated; the
/// bit itself only takes 0 and 1.
pub const TERMINAL_MEMORY: u8 = 2;

impl MAction {
    pub open spec fn spec_bit_value(self, m: u8) -> u8 {
        match self {
            MAction::Flip => if m == 1 { 0 } else { 1 },
            MAction::Noop => m,
        }
    }

    /// The memory after this action: Flip complements the bit, Noop keeps it.
    pub fn bit_value(self, m: u8) -> (r: u8)
        ensures
            r == self.spec_bit_value(m),
            m <= 1 ==> r <= 1,
    {
        match self {
            MAction::Flip => {
                if m == 1 {
                    0
                } else {
                    1
                }
            },
            MAction::Noop => m,
        }
    }
}

/// The actions of the wrapped environment, each paired with Flip and then
/// with Noop.
pub open spec fn paired_actions<A>(actions: Seq<A>) -> Seq<(A, MAction)> {
    Seq::new(
        2 * actions.len(),
        |i: int| (actions[i / 2], if i % 2 == 0 { MAction::Flip } else { MAction::Noop }),
    )
}

pub struct MWrapper<E: Environment> {
    env: E,
    m: u8,
}

impl<E: Environment> MWrapper<E> where E::State: Copy, E::Action: Copy {
    /// The wrapped environment.
    pub closed spec fn inner(&self) -> E {
        self.env
    }

    /// The memory value: the bit (0 or 1), or `TERMINAL_MEMORY` once the
    /// wrapped environment has terminated.
    pub closed spec fn memory(&self) -> u8 {
        self.m
    }

    /// Wraps `env`, which must not have terminated, with the bit at 0.
    pub fn new(env: E) -> (r: MWrapper<E>)
        requires
            env.wf(),
            env.state() != env.terminal(),
        ensures
            r.wf(),
            r.inner() == env,
            r.memory() == 0,
    {
        MWrapper { env, m: 0 }
    }

    /// In every well-formed wrapper, the memory holds the sentinel exactly
    /// when the wrapped environment has terminated.
    pub proof fn lemma_sentinel(&self)
        requires
            self.wf(),
        ensures
            (self.memory() == TERMINAL_MEMORY) == (self.inner().state()
                == self.inner().terminal()),
            self.memory() <= TERMINAL_MEMORY,
    {
    }
}

impl<E: Environment> MDP for MWrapper<E> where E::State: Copy, E::Action: Copy {

}

impl<E: Environment> Environment for MWrapper<E> where E::State: Copy, E::Action: Copy {
    type Action = (E::Action, MAction);

    type State = (E::State, u8);

    /// The wrapped environment is well formed and the memory is the sentinel
    /// exactly when it has terminated.
    open spec fn wf(&self) -> bool {
        &&& self.inner().wf()
        &&& self.memory() <= TERMINAL_MEMORY
        &&& (self.memory() == TERMINAL_MEMORY) == (self.inner().state()
            == self.inner().terminal())
    }

    open spec fn state(&self) -> (E::State, u8) {
        (self.inner().state(), self.memory())
    }

    open spec fn terminal(&self) -> (E::State, u8) {
        (self.inner().terminal(), TERMINAL_MEMORY)
    }

    /// The parts agree: the memory is the sentinel exactly at the wrapped
    /// environment's terminal state.
    open spec fn valid_state(&self, s: (E::State, u8)) -> bool {
        &&& (s.0 == self.inner().terminal()) == (s.1 == TERMINAL_MEMORY)
        &&& self.inner().valid_state(s.0)
    }

    /// The wrapped environment steps with the first half of the action; the
    /// memory follows the second half, or becomes the sentinel when the
    /// wrapped environment has terminated. The reward passes unchanged.
    open spec fn steps_to(
        &self,
        action: (E::Action, MAction),
        after: MWrapper<E>,
        outcome: Option<((E::State, u8), Reward)>,
    ) -> bool {
        match outcome {
            None => self.inner().steps_to(action.0, after.inner(), None) && after == *self,
            Some(((s, m), rw)) => {
                &&& self.inner().steps_to(action.0, after.inner(), Some((s, rw)))
                &&& after.memory() == m
                &&& m == if after.inner().state() == after.inner().terminal() {
                    TERMINAL_MEMORY
                } else {
                    action.1.spec_bit_value(self.memory())
                }
            },
        }
    }

    /// The wrapped environment's actions, each with Flip and then with Noop;
    /// the memory does not matter.
    open spec fn actions(&self, s: (E::State, u8)) -> Seq<(E::Action, MAction)> {
        paired_actions(self.inner().actions(s.0))
    }

    /// Steps the wrapped environment; unless it refuses, the memory action
    /// applies to the bit, and the bit becomes the sentinel if the wrapped
    /// environment has just terminated. The reward is passed on unchanged.
    fn take_action(&mut self, action: (E::Action, MAction)) -> (r: Option<
        ((E::State, u8), Reward),
    >)
        ensures
            r is None ==> *final(self) == *old(self),
            r matches Some(((s, m), _)) ==> {
                &&& s == final(self).inner().state()
                &&& m == final(self).memory()
                &&& m == if s == final(self).inner().terminal() {
                    TERMINAL_MEMORY
                } else {
                    action.1.spec_bit_value(old(self).memory())
                }
            },
    {
        match self.env.take_action(action.0) {
            None => None,
            Some((next_env_state, reward)) => {
                self.m = action.1.bit_value(self.m);
                if self.env.terminated() {
                    self.m = TERMINAL_MEMORY;
                }
                Some(((next_env_state, self.m), reward))
            },
        }
    }

    fn available_actions(&self, state: (E::State, u8)) -> (r: Vec<(E::Action, MAction)>) {
        let env_actions = self.env.available_actions(state.0);
        let mut r: Vec<(E::Action, MAction)> = Vec::new();
        let mut i: usize = 0;
        while i < env_actions.len()
            invariant
                i <= env_actions@.len(),
                env_actions@ == self.env.actions(state.0),
                r@ =~= paired_actions(env_actions@.subrange(0, i as int)),
            decreases env_actions@.len() - i,
        {
            let a = env_actions[i];
            r.push((a, MAction::Flip));
            r.push((a, MAction::Noop));
            i = i + 1;
            assert(r@ =~= paired_actions(env_actions@.subrange(0, i as int)));
        }
        assert(env_actions@.subrange(0, i as int) =~= env_actions@);
        r
    }

    fn current_state(&self) -> (r: (E::State, u8)) {
        (self.env.current_state(), self.m)
    }

    fn terminated(&self) -> (r: bool) {
        self.env.terminated()
    }

    fn is_terminal(&self, state: (E::State, u8)) -> (r: bool) {
        self.env.is_terminal(state.0)
    }

    fn get_terminal(&self) -> (r: (E::State, u8)) {
        (self.env.get_terminal(), TERMINAL_MEMORY)
    }

    fn same_state(a: &(E::State, u8), b: &(E::State, u8)) -> (r: bool) {
        E::same_state(&a.0, &b.0) && a.1 == b.1
    }

    fn same_action(a: &(E::Action, MAction), b: &(E::Action, MAction)) -> (r: bool) {
        E::same_action(&a.0, &b.0) && a.1 == b.1
    }
}

} // verus!
