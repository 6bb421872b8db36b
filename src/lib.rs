//! Revision-control helpers for a coding agent: closest shared remote commit,
//! remote diffs, and workspace snapshots over Git and Darcs.
pub mod ancestry;
pub mod backend;
pub mod closest;
pub mod command;
pub mod darcs;
pub mod darcs_snapshots;
pub mod errors;
pub mod ghost_commits;
pub mod git_info;
pub mod paths;
pub mod remote_diff;
pub mod snapshot;
pub mod text;
