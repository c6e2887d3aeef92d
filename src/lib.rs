//! A pluggable static-site build orchestrator: a plugin registry ordered by
//! role, a shared build context threaded through three phases, and a working
//! set of input files that plugins may grow while the build runs.
pub mod action;
pub mod config;
pub mod context;
pub mod file;
pub mod pinch;
pub mod plugins;
pub mod text;
pub mod utils;

pub use action::{Action, BuildError};
pub use config::Config;
pub use context::Context;
pub use file::InputFile;
pub use pinch::Pinch;
pub use plugins::{PluginDefinition, PluginKind, PluginRole};
