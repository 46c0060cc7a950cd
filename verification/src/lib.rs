//! Checks whether the dependencies that a project's manifest declares are
//! satisfied by the highest stable release that the matching package
//! registry lists.
//!
//! The library holds the rules: how a manifest's entries become dependency
//! records, how a registry's answer is reduced to one version, and how the
//! records are split into those that the version satisfies and those that it
//! does not. Reading files and talking to registries is left to the caller.
//!
//! - [`dependency`]: the records of each ecosystem, made of its manifest,
//!   and the reduction of its registry's answer.
//! - [`classify`]: joining the answers, and splitting the records by them.
//! - [`partition`]: what is proved of the two sides of the split.
//! - [`report`]: the text of the report, and the kind of a manifest by its
//!   file name.
//! - [`version`], [`json`], [`text`]: versions and ranges, JSON documents,
//!   and the handling of names and prefixes.

pub mod classify;
pub mod dependency;
pub mod json;
pub mod partition;
pub mod report;
pub mod text;
pub mod version;
