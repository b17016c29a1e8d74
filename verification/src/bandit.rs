//! This module contains the Bandits whose behavior the Agents study.

pub use bandit::Bandit;
pub use binomial::spec_binomial_mean;
pub use binomial::spec_binomial_std;
pub use binomial::BinomialBandit;
pub use exponential::spec_exponential_mean;
pub use exponential::ExponentialBandit;
pub use gamma::spec_gamma_mean;
pub use gamma::spec_gamma_std;
pub use gamma::GammaBandit;
pub use gaussian::GaussianBandit;
pub use log_normal::spec_log_normal_mean;
pub use log_normal::spec_log_normal_std;
pub use log_normal::LogNormalBandit;

mod bandit;
mod binomial;
mod exponential;
mod gamma;
mod gaussian;
mod log_normal;
mod sampling;
