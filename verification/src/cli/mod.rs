//! The commands of the command line, as values.

pub mod commands;

pub use commands::{Command, FeeModeArg, FeePriorityArg, Opt};
