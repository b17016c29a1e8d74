//! This module contains the Agents that try to figure out the optimal
//! strategy for playing a given Bandit.

pub use agent::spec_update;
pub use agent::Agent;
pub use epsilon_greedy::EpsilonGreedyAgent;
pub use greedy::GreedyAgent;
pub use optimistic::lemma_fresh_optimistic_prefers_first_arm;
pub use optimistic::spec_ucb;
pub use optimistic::OptimisticAgent;

mod agent;
mod epsilon_greedy;
mod greedy;
mod optimistic;
