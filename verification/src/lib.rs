//! Aggregation of per-package dependency manifests.
//!
//! A manifest declares the system packages and the language packages that one
//! package of a source tree needs, in a base tier and a large tier, at the top
//! level and per target architecture. This library extracts the names a
//! manifest declares for one tier, merges the names of many manifests into
//! sorted lists without repetition, and composes the shell commands that
//! install them.

pub mod aggregate;
pub mod command;
pub mod config;
pub mod manifest;
pub mod names;
pub mod order;
pub mod target;
