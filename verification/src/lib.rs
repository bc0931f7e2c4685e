//! A Monte Carlo simulator of the Monty Hall puzzle: given a door count, a
//! contestant strategy and a number of trials, it estimates win and loss
//! frequencies.

pub mod config;
pub mod game;
pub mod runner;
pub mod text;

pub use config::Config;
pub use game::Door;
pub use game::Outcome;
pub use game::Strategy;
pub use runner::run;
pub use runner::RunReport;
