//! Keeps a pinned flake input in step with the same input of another flake,
//! and reports whether a pinned input is behind its upstream branch or tag.
//!
//! The crate is organised around three cores: a lock model with a sync
//! strategy engine, a lossless editor for the `inputs.<name>.url` literal of
//! a flake definition, and a freshness checker that classifies a declared
//! reference against the remote repository state.

pub mod cli;
pub mod commands;
pub mod console;
pub mod error;
pub mod flake_nix;
pub mod fs;
pub mod git;
pub mod lock;
pub mod lock_load;
pub mod strategy;
pub mod update;
pub mod version;

pub use error::Error;
