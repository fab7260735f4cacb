//! The settings of a node.

pub mod settings;

pub use settings::Config;
