//! A release engine for repositories whose commits follow a structured
//! convention: it classifies a window of commits, resolves the next semantic
//! version, and plans the guarded bump workflow (hooks, commit, tag) for a
//! single repository or for several independently versioned packages.
//!
//! The crate computes decisions over plain values; reading the repository,
//! rendering changelogs and running hook processes are left to the caller.

pub mod bump;
pub mod commit;
pub mod hook;
pub mod orchestrator;
pub mod settings;
pub mod tag;
pub mod text;
pub mod version;
