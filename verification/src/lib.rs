//! A library for running multi-armed bandit simulations.
//!
//! The simulation has two components: a Bandit with some number of arms, each
//! paying out according to some distribution, and an Agent that uses a
//! strategy to learn the optimal bandit arm. A Game couples one Agent to one
//! Bandit: the Agent pulls arms according to its policy, and the Game records
//! wins and rewards.
//!
//! All real-valued quantities (probabilities, estimates, rewards, means) are
//! carried as fixed-point numbers: an `i64` counting units of `1 / SCALE`.
//! Every arithmetic step is stated exactly over the integers, so the whole
//! simulation is deterministic given the underlying uniform random draws.

use vstd::prelude::*;

pub use agent::Agent;
pub use util::AggregateCounter;
pub use util::ArgBounds;
pub use bandit::Bandit;
pub use run::bernoulli_pairs;
pub use bandit::BinomialBandit;
pub use util::ConstantStepper;
pub use util::Counter;
pub use agent::EpsilonGreedyAgent;
pub use bandit::ExponentialBandit;
pub use game::pull_chain;
pub use game::pull_step;
pub use game::reset_outcome;
pub use game::reward_entry_ok;
pub use game::runs_to;
pub use game::Game;
pub use run::multiple_runs_outcome;
pub use run::multiple_runs_witness;
pub use bandit::GammaBandit;
pub use bandit::GaussianBandit;
pub use run::greedy_bernoulli;
pub use agent::GreedyAgent;
pub use util::HarmonicStepper;
pub use bandit::LogNormalBandit;
pub use run::multiple_runs;
pub use agent::OptimisticAgent;
pub use run::pair_bernoulli;
pub use run::Policy;
pub use util::RecordCounter;
pub use fixed::SCALE;
pub use run::sequential_bernoulli;
pub use util::Stepper;
pub use fixed::VALUE_MAX;

mod agent;
mod bandit;
mod fixed;
mod game;
mod random;
mod run;
mod util;

verus! {

} // verus!
