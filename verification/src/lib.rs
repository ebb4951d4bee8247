//! Completion data for a JavaScript package-manager CLI.
//!
//! The library produces newline-joined name lists for a shell completion
//! engine: a curated table of well-known package names merged with
//! user-supplied additions and stripped of user-supplied exclusions, the
//! dependency names a project manifest declares, and the package names
//! physically present in an installed-modules directory. All inputs arrive
//! as plain values; reading files and directories is the caller's business.

pub mod names;
pub mod packages;
pub mod manifest;
pub mod modules;
pub mod render;
pub mod resolver;
