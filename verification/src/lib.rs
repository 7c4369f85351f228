//! A verified match-and-wipe engine for build-artifact directories.
//!
//! The crate models a scanned directory tree as a value, finds the
//! subdirectories that satisfy a named matching rule, aggregates their
//! sizes, filters them against caller-supplied ignore prefixes, and
//! accounts for the outcome of deleting the rest.  Every step carries a
//! contract; the callers that touch the real filesystem live outside
//! this library and only hand trees, paths and deletion outcomes in.

pub mod command;
pub mod configuration;
pub mod dir_helpers;
pub mod fs_tree;
pub mod opts;
pub mod text;
pub mod wipe;
pub mod wipe_params;
pub mod writer;
