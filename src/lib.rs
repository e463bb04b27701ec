//! Tabular reinforcement learning: environments (a grid world, a T-shaped
//! corridor, a one-bit memory decorator) and value-based learners (SARSA,
//! Q-learning, n-step SARSA, Dyna-Q) over a shared fixed-point value table.

pub mod environment;
pub mod gridworld_definitions;
pub mod mdp;
pub mod learner;
mod random;
pub mod table;
