//! Package manager core for agent tooling: a durable, lock-protected package
//! registry, a fetch pipeline that resolves and stages remote packages, a
//! version-control layer over git, and a pluggable deployment backend.
//!
//! The registry file and the package manifest are plain key/value text; their
//! parsers and printers live in [`format`] and are proved to round-trip.
//! Network and filesystem effects (cloning, file locking, staging directories)
//! are reached through narrow trusted wrappers or driven by the embedding
//! program through the [`workflow`] state machine.

pub mod backends;
pub mod format;
pub mod package;
pub mod registry;
pub mod repository;
pub mod text;
pub mod types;
pub mod workflow;
