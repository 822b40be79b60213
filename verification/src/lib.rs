//! A source-based package build-and-install library.
//!
//! Recipes declare sources, checksums and lifecycle stages; the library
//! resolves mirrors, verifies source integrity, plans the staged build
//! pipeline, and plans conflict-safe two-phase archive installation.
pub mod deps;
pub mod fetch;
pub mod hashes;
pub mod install;
pub mod mirror;
pub mod naming;
pub mod paths;
pub mod pipeline;
pub mod recipe;
pub mod script;
pub mod signatures;
pub mod stage;
pub mod text;
