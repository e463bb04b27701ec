//! The T-maze memory task: the side of a trap is shown at the start of a
//! corridor and must be remembered at the split at its end.

use vstd::prelude::*;

use rand::rngs::StdRng;

use crate::environment::{Environment, Reward, NMDP};
use crate::random::{draw_below, entropy_rng, seeded_rng};

verus! {

/// Reward of every step that does not end the episode.
pub const DEFAULT_REWARD: Reward = -5;

/// Reward of turning towards the trap at the split.
pub const TRAP_REWARD: Reward = -100;

/// Reward of turning away from the trap at the split.
pub const NONTRAP_REWARD: Reward = 100;

/// State representation exposed to the agent.
#[derive(Copy, Clone, Debug, Hash, PartialEq, Eq, PartialOrd, Ord, Structural)]
pub enum TCorridorState {
    Start,
    /// The upper branch is shown as trapped.
    ObserveU,
    /// The lower branch is shown as trapped.
    ObserveL,
    /// The `n`-th cell of the plain part of the corridor, from 1.
    Corridor(usize),
    /// The trap side is no longer observable.
    Split,
    Terminal,
}

#[derive(Copy, Clone, Debug, Hash, PartialEq, Eq, PartialOrd, Ord, Structural)]
pub enum TCorridorAction {
    Forward,
    Backward,
    Up,
    Down,
}

/// The state after the observation cell: the corridor, or the split when the
/// corridor is empty.
pub open spec fn after_observation(normal_steps: usize) -> TCorridorState {
    if normal_steps > 0 {
        TCorridorState::Corridor(1)
    } else {
        TCorridorState::Split
    }
}

/// The observation shown for the trap side `observed` (1 upper, -1 lower).
pub open spec fn observation_of(observed: i8) -> TCorridorState {
    if observed == 1 {
        TCorridorState::ObserveU
    } else {
        TCorridorState::ObserveL
    }
}

/// One transition from a non-terminal `state`: the next state, the trap side
/// afterwards (0 unset, 1 upper, -1 lower) and the reward. `upper` is the
/// side drawn when the trap side is still unset on leaving the start.
pub open spec fn corridor_step(
    state: TCorridorState,
    observed: i8,
    normal_steps: usize,
    action: TCorridorAction,
    upper: bool,
) -> (TCorridorState, i8, Reward) {
    match state {
        TCorridorState::Start => if action == TCorridorAction::Forward {
            let side: i8 = if observed != 0 {
                observed
            } else if upper {
                1i8
            } else {
                -1i8
            };
            (observation_of(side), side, DEFAULT_REWARD)
        } else {
            (state, observed, DEFAULT_REWARD)
        },
        TCorridorState::ObserveU | TCorridorState::ObserveL => if action
            == TCorridorAction::Forward {
            (after_observation(normal_steps), observed, DEFAULT_REWARD)
        } else if action == TCorridorAction::Backward {
            (TCorridorState::Start, observed, DEFAULT_REWARD)
        } else {
            (state, observed, DEFAULT_REWARD)
        },
        TCorridorState::Corridor(n) => if action == TCorridorAction::Forward {
            if n == normal_steps {
                (TCorridorState::Split, observed, DEFAULT_REWARD)
            } else {
                (TCorridorState::Corridor((n + 1) as usize), observed, DEFAULT_REWARD)
            }
        } else {
            (state, observed, DEFAULT_REWARD)
        },
        TCorridorState::Split => match action {
            TCorridorAction::Up => (
                TCorridorState::Terminal,
                observed,
                if observed == 1 { TRAP_REWARD } else { NONTRAP_REWARD },
            ),
            TCorridorAction::Down => (
                TCorridorState::Terminal,
                observed,
                if observed == -1 { TRAP_REWARD } else { NONTRAP_REWARD },
            ),
            TCorridorAction::Backward => (observation_of(observed), observed, DEFAULT_REWARD),
            TCorridorAction::Forward => (state, observed, DEFAULT_REWARD),
        },
        TCorridorState::Terminal => (state, observed, 0),
    }
}

pub struct TCorridor {
    current_state: TCorridorState,
    /// Trap side: 0 not yet drawn, 1 upper, -1 lower.
    observed: i8,
    normal_steps: usize,
    rng: StdRng,
}

impl TCorridor {
    /// The trap side: 0 not yet drawn, 1 upper, -1 lower.
    pub closed spec fn observed(&self) -> i8 {
        self.observed
    }

    /// The number of plain corridor cells between observation and split.
    pub closed spec fn normal_steps(&self) -> usize {
        self.normal_steps
    }

    /// A corridor of `normal_steps` plain cells, with the trap side drawn from
    /// the operating system's entropy on first observation.
    pub fn new(normal_steps: usize) -> (r: TCorridor)
        ensures
            r.wf(),
            r.state() == TCorridorState::Start,
            r.observed() == 0,
            r.normal_steps() == normal_steps,
    {
        TCorridor {
            current_state: TCorridorState::Start,
            observed: 0,
            normal_steps,
            rng: entropy_rng(),
        }
    }

    /// As `new`, with the trap side drawn from a generator seeded by `seed`.
    pub fn with_seed(normal_steps: usize, seed: u64) -> (r: TCorridor)
        ensures
            r.wf(),
            r.state() == TCorridorState::Start,
            r.observed() == 0,
            r.normal_steps() == normal_steps,
    {
        TCorridor {
            current_state: TCorridorState::Start,
            observed: 0,
            normal_steps,
            rng: seeded_rng(seed),
        }
    }

    /// The observation on leaving the start: the side already fixed, or else
    /// `upper` decides it, and it stays fixed for the episode.
    fn observe(&mut self, upper: bool) -> (r: TCorridorState)
        requires
            -1 <= old(self).observed <= 1,
        ensures
            final(self).observed == (if old(self).observed != 0 {
                old(self).observed
            } else if upper {
                1i8
            } else {
                -1i8
            }),
            r == observation_of(final(self).observed),
            final(self).current_state == old(self).current_state,
            final(self).normal_steps == old(self).normal_steps,
            final(self).rng == old(self).rng,
            old(self).observed != 0 ==> *final(self) == *old(self),
    {
        if self.observed == 1 {
            return TCorridorState::ObserveU;
        }
        if self.observed == -1 {
            return TCorridorState::ObserveL;
        }
        if upper {
            self.observed = 1;
            TCorridorState::ObserveU
        } else {
            self.observed = -1;
            TCorridorState::ObserveL
        }
    }

    fn split_or_corridor(&self) -> (r: TCorridorState)
        ensures
            r == after_observation(self.normal_steps),
    {
        if self.normal_steps > 0 {
            TCorridorState::Corridor(1)
        } else {
            TCorridorState::Split
        }
    }

    /// Steps the corridor as `take_action` does, with `upper` standing for the
    /// draw of the trap side (upper when true) should the side still be unset
    /// on leaving the start.
    pub fn take_action_given(&mut self, action: TCorridorAction, upper: bool) -> (r: Option<
        (TCorridorState, Reward),
    >)
        requires
            old(self).wf(),
        ensures
            final(self).wf(),
            final(self).normal_steps() == old(self).normal_steps(),
            old(self).state() == TCorridorState::Terminal ==> r is None && *final(self)
                == *old(self),
            old(self).state() != TCorridorState::Terminal ==> {
                let (s, o, rw) = corridor_step(
                    old(self).state(),
                    old(self).observed(),
                    old(self).normal_steps(),
                    action,
                    upper,
                );
                &&& r == Some((s, rw))
                &&& final(self).state() == s
                &&& final(self).observed() == o
            },
    {
        if self.current_state == TCorridorState::Terminal {
            return None;
        }
        let (next_state, reward): (TCorridorState, Reward) = match self.current_state {
            TCorridorState::Start => {
                if action == TCorridorAction::Forward {
                    (self.observe(upper), DEFAULT_REWARD)
                } else {
                    (TCorridorState::Start, DEFAULT_REWARD)
                }
            },
            TCorridorState::ObserveL => {
                if action == TCorridorAction::Forward {
                    (self.split_or_corridor(), DEFAULT_REWARD)
                } else if action == TCorridorAction::Backward {
                    (TCorridorState::Start, DEFAULT_REWARD)
                } else {
                    (TCorridorState::ObserveL, DEFAULT_REWARD)
                }
            },
            TCorridorState::ObserveU => {
                if action == TCorridorAction::Forward {
                    (self.split_or_corridor(), DEFAULT_REWARD)
                } else if action == TCorridorAction::Backward {
                    (TCorridorState::Start, DEFAULT_REWARD)
                } else {
                    (TCorridorState::ObserveU, DEFAULT_REWARD)
                }
            },
            TCorridorState::Corridor(n) => {
                if action == TCorridorAction::Forward {
                    if n == self.normal_steps {
                        (TCorridorState::Split, DEFAULT_REWARD)
                    } else {
                        (TCorridorState::Corridor(n + 1), DEFAULT_REWARD)
                    }
                } else {
                    (TCorridorState::Corridor(n), DEFAULT_REWARD)
                }
            },
            TCorridorState::Split => match action {
                TCorridorAction::Up => (
                    TCorridorState::Terminal,
                    if self.observed == 1 {
                        TRAP_REWARD
                    } else {
                        NONTRAP_REWARD
                    },
                ),
                TCorridorAction::Down => (
                    TCorridorState::Terminal,
                    if self.observed == -1 {
                        TRAP_REWARD
                    } else {
                        NONTRAP_REWARD
                    },
                ),
                TCorridorAction::Backward => (
                    if self.observed == 1 {
                        TCorridorState::ObserveU
                    } else {
                        TCorridorState::ObserveL
                    },
                    DEFAULT_REWARD,
                ),
                TCorridorAction::Forward => (TCorridorState::Split, DEFAULT_REWARD),
            },
            TCorridorState::Terminal => (TCorridorState::Terminal, 0),
        };
        self.current_state = next_state;
        Some((next_state, reward))
    }
}

impl NMDP for TCorridor {

}

impl Environment for TCorridor {
    type Action = TCorridorAction;

    type State = TCorridorState;

    /// The trap side is set once the start is left, agrees with the
    /// observation states, and corridor cells are numbered within bounds.
    open spec fn wf(&self) -> bool {
        &&& -1 <= self.observed() <= 1
        &&& self.state() == TCorridorState::ObserveU ==> self.observed() == 1
        &&& self.state() == TCorridorState::ObserveL ==> self.observed() == -1
        &&& self.state() != TCorridorState::Start ==> self.observed() != 0
        &&& self.state() matches TCorridorState::Corridor(n) ==> 1 <= n <= self.normal_steps()
    }

    closed spec fn state(&self) -> TCorridorState {
        self.current_state
    }

    open spec fn terminal(&self) -> TCorridorState {
        TCorridorState::Terminal
    }

    open spec fn valid_state(&self, s: TCorridorState) -> bool {
        true
    }

    /// At the terminal state nothing changes; elsewhere the step is
    /// `corridor_step` for one of the two draws of the trap side.
    open spec fn steps_to(
        &self,
        action: TCorridorAction,
        after: TCorridor,
        outcome: Option<(TCorridorState, Reward)>,
    ) -> bool {
        if self.state() == TCorridorState::Terminal {
            outcome is None && after == *self
        } else {
            exists|upper: bool|
                {
                    let (s, o, rw) = #[trigger] corridor_step(
                        self.state(),
                        self.observed(),
                        self.normal_steps(),
                        action,
                        upper,
                    );
                    &&& outcome == Some((s, rw))
                    &&& after.state() == s
                    &&& after.observed() == o
                    &&& after.normal_steps() == self.normal_steps()
                }
        }
    }

    open spec fn actions(&self, s: TCorridorState) -> Seq<TCorridorAction> {
        if s == TCorridorState::Split {
            seq![TCorridorAction::Up, TCorridorAction::Down]
        } else {
            seq![TCorridorAction::Forward]
        }
    }

    /// The trap side is drawn, upper or lower, the first time the start is
    /// left; the result is the step for one of the two draws.
    fn take_action(&mut self, action: TCorridorAction) -> (r: Option<(TCorridorState, Reward)>)
        ensures
            final(self).normal_steps() == old(self).normal_steps(),
            old(self).state() != TCorridorState::Terminal ==> exists|upper: bool|
                {
                    let (s, o, rw) = #[trigger] corridor_step(
                        old(self).state(),
                        old(self).observed(),
                        old(self).normal_steps(),
                        action,
                        upper,
                    );
                    &&& r == Some((s, rw))
                    &&& final(self).state() == s
                    &&& final(self).observed() == o
                },
    {
        let upper = if self.current_state == TCorridorState::Start && action
            == TCorridorAction::Forward && self.observed == 0 {
            draw_below(&mut self.rng, 2) == 0
        } else {
            false
        };
        let r = self.take_action_given(action, upper);
        assert(old(self).state() != TCorridorState::Terminal ==> {
            let (s, o, rw) = corridor_step(
                old(self).state(),
                old(self).observed(),
                old(self).normal_steps(),
                action,
                upper,
            );
            &&& r == Some((s, rw))
            &&& self.state() == s
            &&& self.observed() == o
        });
        r
    }

    fn available_actions(&self, state: TCorridorState) -> (r: Vec<TCorridorAction>) {
        if state == TCorridorState::Split {
            let r = vec![TCorridorAction::Up, TCorridorAction::Down];
            assert(r@ =~= self.actions(state));
            r
        } else {
            let r = vec![TCorridorAction::Forward];
            assert(r@ =~= self.actions(state));
            r
        }
    }

    fn current_state(&self) -> (r: TCorridorState) {
        self.current_state
    }

    fn terminated(&self) -> (r: bool) {
        self.current_state == TCorridorState::Terminal
    }

    fn is_terminal(&self, state: TCorridorState) -> (r: bool) {
        state == TCorridorState::Terminal
    }

    fn get_terminal(&self) -> (r: TCorridorState) {
        TCorridorState::Terminal
    }

    fn same_state(a: &TCorridorState, b: &TCorridorState) -> (r: bool) {
        *a == *b
    }

    fn same_action(a: &TCorridorAction, b: &TCorridorAction) -> (r: bool) {
        *a == *b
    }
}

} // verus!
