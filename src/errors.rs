//! Errors of snapshot operations.
use vstd::prelude::*;
use vstd::string::*;

use crate::backend::RevisionControlKind;

verus! {

/// Errors of Git snapshot operations.
#[derive(Debug)]
pub enum GitToolingError {
    /// A git command ended with a failing status.
    GitCommand { command: String, status: Option<i32>, stderr: String },
    /// A git command printed output that is not UTF-8.
    GitOutputUtf8 { command: String },
    NotAGitRepository { path: String },
    NonRelativePath { path: String },
    PathEscapesRepository { path: String },
    /// A path could not be taken relative to the worktree.
    PathPrefix,
    /// Walking the worktree failed.
    Walkdir { message: String },
    Io { message: String },
}

/// Errors of Darcs snapshot operations.
#[derive(Debug)]
pub enum DarcsSnapshotError {
    /// The `darcs` program is not installed.
    CliMissing,
    /// A darcs command ended with a failing status.
    CommandFailed { command: String, status: Option<i32>, stderr: String },
    OutputUtf8 { command: String },
    /// The scope lies outside the repository rooted at `root`.
    PathOutsideRepository { path: String, root: String },
    /// The storage for snapshots could not be created.
    StoragePath { path: String, message: String },
    Walkdir { message: String },
    StripPrefix,
    Io { message: String },
    Symlink { target: String, link: String, message: String },
}

/// The errors of snapshot operations, whatever the backend.
#[derive(Debug)]
pub enum SnapshotError {
    NotARepository { path: String },
    UnsupportedRevisionControl { kind: RevisionControlKind },
    MissingTool { tool: String },
    Git(GitToolingError),
    Darcs(DarcsSnapshotError),
    MismatchedSnapshot { expected: RevisionControlKind, actual: RevisionControlKind },
}

/// `r` is what the Darcs error `e` becomes: a missing program names the tool,
/// and the rest, a scope outside the repository with both of its paths among
/// them, is carried as it is.
pub open spec fn is_from_darcs(e: DarcsSnapshotError, r: SnapshotError) -> bool {
    match e {
        DarcsSnapshotError::CliMissing => r matches SnapshotError::MissingTool { tool } && tool@
            == "darcs"@,
        _ => r == SnapshotError::Darcs(e),
    }
}

/// `r` is what the Git error `e` becomes: a path outside any repository is no
/// repository, and the rest is carried as it is.
pub open spec fn is_from_git(e: GitToolingError, r: SnapshotError) -> bool {
    match e {
        GitToolingError::NotAGitRepository { path } => r matches SnapshotError::NotARepository {
            path: p,
        } && p@ == path@,
        _ => r == SnapshotError::Git(e),
    }
}

impl SnapshotError {
    pub fn from_darcs(e: DarcsSnapshotError) -> (r: SnapshotError)
        ensures
            is_from_darcs(e, r),
    {
        match e {
            DarcsSnapshotError::CliMissing => SnapshotError::MissingTool {
                tool: String::from_str("darcs"),
            },
            other => SnapshotError::Darcs(other),
        }
    }

    pub fn from_git(e: GitToolingError) -> (r: SnapshotError)
        ensures
            is_from_git(e, r),
    {
        match e {
            GitToolingError::NotAGitRepository { path } => SnapshotError::NotARepository { path },
            other => SnapshotError::Git(other),
        }
    }
}

} // verus!
