//! The contract that every task (environment) satisfies.

use vstd::prelude::*;

pub mod gridworld;
pub mod m_wrapper;
pub mod t_corridor;

verus! {

/// Reward of a single transition.
pub type Reward = i32;

/// A reward process over discrete states and actions.
///
/// An environment has a current state and a unique terminal state; once the
/// terminal state is reached, stepping is refused.
pub trait Environment: Sized {
    type Action;
    type State;

    /// Internal invariant, kept by every operation.
    spec fn wf(&self) -> bool;

    /// The state the agent currently observes.
    spec fn state(&self) -> Self::State;

    /// The designated terminal state.
    spec fn terminal(&self) -> Self::State;

    /// Whether `s` is a state this environment can be in; only such states
    /// may be asked about.
    spec fn valid_state(&self, s: Self::State) -> bool;

    /// The actions offered at `s`.
    spec fn actions(&self, s: Self::State) -> Seq<Self::Action>;

    /// Whether taking `action` here may leave the environment as `after`
    /// with `outcome` as the result.
    spec fn steps_to(
        &self,
        action: Self::Action,
        after: Self,
        outcome: Option<(Self::State, Reward)>,
    ) -> bool;

    /// Steps the environment; `None` exactly when it is already terminal.
    fn take_action(&mut self, action: Self::Action) -> (r: Option<(Self::State, Reward)>)
        requires
            old(self).wf(),
        ensures
            old(self).steps_to(action, *final(self), r),
            final(self).wf(),
            final(self).terminal() == old(self).terminal(),
            r is None <==> old(self).state() == old(self).terminal(),
            r is None ==> *final(self) == *old(self),
            r matches Some((s, _)) ==> s == final(self).state(),
    ;

    /// The actions offered at `state`; never empty.
    fn available_actions(&self, state: Self::State) -> (r: Vec<Self::Action>)
        requires
            self.wf(),
        ensures
            r@ == self.actions(state),
            r@.len() > 0,
    ;

    fn current_state(&self) -> (r: Self::State)
        requires
            self.wf(),
        ensures
            r == self.state(),
    ;

    /// Whether the terminal state has been reached.
    fn terminated(&self) -> (r: bool)
        requires
            self.wf(),
        ensures
            r == (self.state() == self.terminal()),
    ;

    fn is_terminal(&self, state: Self::State) -> (r: bool)
        requires
            self.wf(),
            self.valid_state(state),
        ensures
            r == (state == self.terminal()),
    ;

    fn get_terminal(&self) -> (r: Self::State)
        requires
            self.wf(),
        ensures
            r == self.terminal(),
    ;

    /// Equality of states.
    fn same_state(a: &Self::State, b: &Self::State) -> (r: bool)
        ensures
            r == (*a == *b),
    ;

    /// Equality of actions.
    fn same_action(a: &Self::Action, b: &Self::Action) -> (r: bool)
        ensures
            r == (*a == *b),
    ;
}

/// An environment whose observed state is Markov.
pub trait MDP: Environment {

}

/// An environment whose observed state is not Markov (partially observable).
pub trait NMDP: Environment {

}

} // verus!
