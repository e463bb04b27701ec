//! The Markov-process view of an environment.

pub use crate::environment::{Environment, Reward, MDP};
