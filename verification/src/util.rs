//! Utility functions and modules used to help the Agents play the Bandits.

pub use arg_bounds::ArgBounds;
pub use arg_bounds::int_seq_i32;
pub use arg_bounds::int_seq_i64;
pub use arg_bounds::int_seq_u32;
pub use arg_bounds::is_first_max;
pub use arg_bounds::lemma_first_max_unique;
pub use arg_bounds::is_first_min;
pub use arg_bounds::is_max_val;
pub use arg_bounds::is_min_val;
pub use counter::AggregateCounter;
pub use counter::Counter;
pub use counter::RecordCounter;
pub use stepper::bump;
pub use stepper::ConstantStepper;
pub use stepper::lemma_harmonic_reset_restarts;
pub use stepper::lemma_harmonic_yields_reciprocals;
pub use stepper::HarmonicStepper;
pub use stepper::Stepper;

mod arg_bounds;
mod counter;
mod stepper;
