//! The diff between the working tree and the closest commit shared with a
//! remote: changes to versioned files first, then one block per untracked file, diffed
//! against the null device.
use vstd::prelude::*;
use vstd::string::*;

use crate::closest::closest_commit;
use crate::closest::lemma_no_remote_no_commit;
use crate::closest::Outcome;
use crate::command::CommandOutput;
use crate::text::decode_utf8;
use crate::text::lines;
use crate::text::lines_of;
use crate::text::utf8_text;
use crate::text::views;

verus! {

/// The closest commit shared with a remote, and the diff of the working tree
/// against it.
pub struct GitDiffToRemote {
    pub sha: String,
    pub diff: String,
}

/// The path that untracked files are diffed against.
pub open spec fn null_device() -> Seq<char> {
    "/dev/null"@
}

/// The text that a diff command produced, when it ended with status 0 or 1
/// and its output is valid UTF-8.
pub open spec fn diff_text(out: Option<CommandOutput>) -> Option<Seq<char>> {
    match out {
        Some(o) => if o.diff_succeeded() {
            utf8_text(o.stdout@)
        } else {
            None
        },
        None => None,
    }
}

pub fn read_diff(out: &Option<CommandOutput>) -> (r: Option<String>)
    ensures
        r matches Some(t) ==> diff_text(*out) == Some(t@),
        r is None ==> diff_text(*out) is None,
{
    match out {
        Some(o) => {
            if o.diff_success() {
                decode_utf8(o.stdout.clone())
            } else {
                None
            }
        },
        None => None,
    }
}

/// The arguments of the diff of the working tree against `sha`.
pub fn tracked_diff_command(sha: &str) -> (r: Vec<String>)
    ensures
        views(r@) == seq!["diff"@, "--no-textconv"@, "--no-ext-diff"@, sha@],
{
    let r = vec![
        String::from_str("diff"),
        String::from_str("--no-textconv"),
        String::from_str("--no-ext-diff"),
        String::from_str(sha),
    ];
    assert(views(r@) =~= seq!["diff"@, "--no-textconv"@, "--no-ext-diff"@, sha@]);
    r
}

/// The arguments of the listing of untracked files that are not ignored.
pub fn untracked_listing_command() -> (r: Vec<String>)
    ensures
        views(r@) == seq!["ls-files"@, "--others"@, "--exclude-standard"@],
{
    let r = vec![
        String::from_str("ls-files"),
        String::from_str("--others"),
        String::from_str("--exclude-standard"),
    ];
    assert(views(r@) =~= seq!["ls-files"@, "--others"@, "--exclude-standard"@]);
    r
}

/// The arguments of the diff that shows `file` as added.
pub fn untracked_diff_command(file: &str) -> (r: Vec<String>)
    ensures
        views(r@) == seq![
            "diff"@,
            "--no-textconv"@,
            "--no-ext-diff"@,
            "--binary"@,
            "--no-index"@,
            "--"@,
            null_device(),
            file@,
        ],
{
    let r = vec![
        String::from_str("diff"),
        String::from_str("--no-textconv"),
        String::from_str("--no-ext-diff"),
        String::from_str("--binary"),
        String::from_str("--no-index"),
        String::from_str("--"),
        String::from_str("/dev/null"),
        String::from_str(file),
    ];
    assert(views(r@) =~= seq![
        "diff"@,
        "--no-textconv"@,
        "--no-ext-diff"@,
        "--binary"@,
        "--no-index"@,
        "--"@,
        null_device(),
        file@,
    ]);
    r
}

/// The non-empty items of `s`, in order.
pub open spec fn non_empty(s: Seq<Seq<char>>) -> Seq<Seq<char>> {
    s.filter(|x: Seq<char>| x.len() > 0)
}

/// What the listing of untracked files gives: `Some` list of files (empty
/// when the listing failed), or `None` when it succeeded but is not valid
/// UTF-8, which abandons the whole diff.
pub open spec fn untracked_of(listing: Option<CommandOutput>) -> Option<Seq<Seq<char>>> {
    match listing {
        Some(o) => if o.succeeded() {
            match utf8_text(o.stdout@) {
                Some(t) => Some(non_empty(lines_of(t))),
                None => None,
            }
        } else {
            Some(Seq::empty())
        },
        None => Some(Seq::empty()),
    }
}

/// The non-empty items of `v`.
pub fn keep_non_empty(v: Vec<String>) -> (r: Vec<String>)
    ensures
        views(r@) == non_empty(views(v@)),
{
    let ghost all = views(v@);
    let mut out: Vec<String> = Vec::new();
    let mut i: usize = 0;
    while i < v.len()
        invariant
            i <= v.len(),
            all == views(v@),
            views(out@) == non_empty(all.subrange(0, i as int)),
        decreases v.len() - i,
    {
        proof {
            let w = all.subrange(0, i + 1);
            assert(w.drop_last() =~= all.subrange(0, i as int));
            reveal(Seq::filter);
            assert(non_empty(w) == if w.last().len() > 0 {
                non_empty(w.drop_last()).push(w.last())
            } else {
                non_empty(w.drop_last())
            });
        }
        if v[i].unicode_len() > 0 {
            let item = v[i].clone();
            proof {
                assert(views(out@.push(item)) =~= views(out@).push(item@));
            }
            out.push(item);
        }
        i = i + 1;
    }
    assert(all.subrange(0, v.len() as int) =~= all);
    out
}

/// Reads the listing of untracked files.
pub fn untracked_files(listing: Option<CommandOutput>) -> (r: Option<Vec<String>>)
    ensures
        r matches Some(v) ==> untracked_of(listing) == Some(views(v@)),
        r is None ==> untracked_of(listing) is None,
{
    match listing {
        Some(o) => {
            if o.success() {
                match decode_utf8(o.stdout) {
                    Some(t) => Some(keep_non_empty(lines(t.as_str()))),
                    None => None,
                }
            } else {
                Some(Vec::new())
            }
        },
        None => Some(Vec::new()),
    }
}

/// The blocks of the untracked files' diffs that succeeded, in order; a diff
/// that failed is left out.
pub open spec fn extra_blocks(outs: Seq<Option<CommandOutput>>) -> Seq<char>
    decreases outs.len(),
{
    if outs.len() == 0 {
        Seq::empty()
    } else {
        extra_blocks(outs.drop_last()) + match diff_text(outs.last()) {
            Some(t) => t,
            None => Seq::empty(),
        }
    }
}

/// The diff against the shared commit `base`: `None` when there is no such
/// commit, when the diff of versioned files failed, or when the listing of untracked
/// files could not be read; otherwise that diff followed by the
/// untracked files' blocks.
pub open spec fn remote_diff_of(
    base: Option<Seq<char>>,
    changes: Option<CommandOutput>,
    listing: Option<CommandOutput>,
    extras: Seq<Option<CommandOutput>>,
) -> Option<(Seq<char>, Seq<char>)> {
    match base {
        None => None,
        Some(sha) => match diff_text(changes) {
            None => None,
            Some(d) => match untracked_of(listing) {
                None => None,
                Some(_) => Some((sha, d + extra_blocks(extras))),
            },
        },
    }
}

/// Puts together the diff to the remote from the outcomes of its commands:
/// the diff of versioned files against `base`, the listing of untracked files, and the
/// diff of each listed file, in listing order.
pub fn remote_diff(
    base: Option<String>,
    changes: Option<CommandOutput>,
    listing: Option<CommandOutput>,
    extras: &Vec<Option<CommandOutput>>,
) -> (r: Option<GitDiffToRemote>)
    ensures
        r matches Some(d) ==> remote_diff_of(
            match base {
                Some(b) => Some(b@),
                None => None,
            },
            changes,
            listing,
            extras@,
        ) == Some((d.sha@, d.diff@)),
        r is None ==> remote_diff_of(
            match base {
                Some(b) => Some(b@),
                None => None,
            },
            changes,
            listing,
            extras@,
        ) is None,
{
    let sha = match base {
        Some(b) => b,
        None => return None,
    };
    let mut diff = match read_diff(&changes) {
        Some(d) => d,
        None => return None,
    };
    if untracked_files(listing).is_none() {
        return None;
    }
    let ghost d0 = diff@;
    let ghost all = extras@;
    let mut i: usize = 0;
    assert(all.subrange(0, 0) =~= Seq::<Option<CommandOutput>>::empty());
    assert(d0 + Seq::<char>::empty() =~= d0);
    while i < extras.len()
        invariant
            i <= extras.len(),
            extras@ == all,
            diff@ == d0 + extra_blocks(all.subrange(0, i as int)),
        decreases extras.len() - i,
    {
        let ghost w = all.subrange(0, i + 1);
        assert(w.drop_last() =~= all.subrange(0, i as int));
        assert(w.last() == all[i as int]);
        match read_diff(&extras[i]) {
            Some(t) => {
                diff.append(t.as_str());
                assert(diff@ =~= d0 + extra_blocks(w));
            },
            None => {
                assert(diff@ =~= d0 + extra_blocks(w));
            },
        }
        i = i + 1;
    }
    assert(all.subrange(0, extras.len() as int) =~= all);
    Some(GitDiffToRemote { sha, diff })
}

/// With no remote configured, every candidate is ineligible, so there is no
/// shared commit and no diff to the remote, whatever the diff commands gave.
pub proof fn lemma_no_remote_no_diff(
    branches: Seq<Seq<char>>,
    changes: Option<CommandOutput>,
    listing: Option<CommandOutput>,
    extras: Seq<Option<CommandOutput>>,
)
    ensures
        remote_diff_of(
            closest_commit(Seq::new(branches.len(), |i: int| Outcome::Ineligible)),
            changes,
            listing,
            extras,
        ) is None,
{
    lemma_no_remote_no_commit(branches);
}

/// Why a command that the workspace diff needs gave no output.
pub enum RunFailure {
    /// The program was not found.
    NotFound,
    /// It could not be started for another reason.
    Other,
}

/// How a command ran: its outcome, or why it could not be started.
pub type RunResult = Result<CommandOutput, RunFailure>;

/// Why the workspace diff failed.
pub enum WorkspaceDiffError {
    /// A command could not be started; `not_found` when the program is missing.
    Spawn { not_found: bool },
    /// A command ended with a status that is not success.
    Status { code: Option<i32> },
}

/// The lossily decoded output of a diff command, or why it failed: a status
/// other than 0 or 1 is an error.
pub open spec fn captured_diff(r: RunResult) -> Result<Seq<char>, WorkspaceDiffError> {
    match r {
        Ok(o) => if o.diff_succeeded() {
            Ok(crate::text::utf8_lossy_text(o.stdout@))
        } else {
            Err(WorkspaceDiffError::Status { code: o.code })
        },
        Err(RunFailure::NotFound) => Err(WorkspaceDiffError::Spawn { not_found: true }),
        Err(RunFailure::Other) => Err(WorkspaceDiffError::Spawn { not_found: false }),
    }
}

fn capture_diff(r: &RunResult) -> (out: Result<String, WorkspaceDiffError>)
    ensures
        out matches Ok(t) ==> captured_diff(*r) == Ok::<Seq<char>, WorkspaceDiffError>(t@),
        out matches Err(e) ==> captured_diff(*r) == Err::<Seq<char>, WorkspaceDiffError>(e),
{
    match r {
        Ok(o) => {
            if o.diff_success() {
                Ok(crate::text::decode_utf8_lossy(&o.stdout))
            } else {
                Err(WorkspaceDiffError::Status { code: o.code })
            }
        },
        Err(RunFailure::NotFound) => Err(WorkspaceDiffError::Spawn { not_found: true }),
        Err(RunFailure::Other) => Err(WorkspaceDiffError::Spawn { not_found: false }),
    }
}

/// The files that an untracked listing names: each piece between line feeds,
/// trimmed, empty ones left out.
pub open spec fn listed_files(text: Seq<char>) -> Seq<Seq<char>> {
    non_empty(
        crate::text::split_on(text, '\n').map_values(|l: Seq<char>| crate::text::trimmed(l)),
    )
}

/// Splits an untracked listing into file names.
pub fn listed_untracked(text: &str) -> (r: Vec<String>)
    ensures
        views(r@) == listed_files(text@),
{
    let pieces = crate::text::split_char(text, '\n');
    let mut names: Vec<String> = Vec::new();
    let mut i: usize = 0;
    while i < pieces.len()
        invariant
            i <= pieces.len(),
            views(names@) == views(pieces@).subrange(0, i as int).map_values(
                |l: Seq<char>| crate::text::trimmed(l),
            ),
        decreases pieces.len() - i,
    {
        let t = String::from_str(crate::text::trim(pieces[i].as_str()));
        proof {
            assert(views(names@.push(t)) =~= views(names@).push(t@));
            assert(views(pieces@).subrange(0, i + 1).map_values(
                |l: Seq<char>| crate::text::trimmed(l),
            ) =~= views(pieces@).subrange(0, i as int).map_values(
                |l: Seq<char>| crate::text::trimmed(l),
            ).push(crate::text::trimmed(pieces@[i as int]@)));
        }
        names.push(t);
        i = i + 1;
    }
    assert(views(pieces@).subrange(0, pieces.len() as int) =~= views(pieces@));
    keep_non_empty(names)
}

/// The untracked files' blocks of a workspace diff: a file whose program was
/// not found is left out, and any other failure fails the whole diff.
pub open spec fn workspace_blocks(extras: Seq<RunResult>) -> Result<Seq<char>, WorkspaceDiffError>
    decreases extras.len(),
{
    if extras.len() == 0 {
        Ok(Seq::empty())
    } else {
        match workspace_blocks(extras.drop_last()) {
            Err(e) => Err(e),
            Ok(before) => match captured_diff(extras.last()) {
                Ok(t) => Ok(before + t),
                Err(WorkspaceDiffError::Spawn { not_found: true }) => Ok(before),
                Err(e) => Err(e),
            },
        }
    }
}

/// The diff of a Git workspace: the diff of versioned files followed by the
/// blocks of the untracked files, in listing order. The listing must have
/// succeeded; its files are those that [`listed_untracked`] reads from it.
pub open spec fn workspace_diff_of(
    changes: RunResult,
    listing: RunResult,
    extras: Seq<RunResult>,
) -> Result<Seq<char>, WorkspaceDiffError> {
    match captured_diff(changes) {
        Err(e) => Err(e),
        Ok(d) => match listing {
            Err(RunFailure::NotFound) => Err(WorkspaceDiffError::Spawn { not_found: true }),
            Err(RunFailure::Other) => Err(WorkspaceDiffError::Spawn { not_found: false }),
            Ok(o) => if !o.succeeded() {
                Err(WorkspaceDiffError::Status { code: o.code })
            } else {
                match workspace_blocks(extras) {
                    Ok(b) => Ok(d + b),
                    Err(e) => Err(e),
                }
            },
        },
    }
}

/// Puts together the diff of a Git workspace from the outcomes of `diff`,
/// of the untracked listing, and of the diff of each listed file.
pub fn workspace_git_diff(changes: RunResult, listing: RunResult, extras: &Vec<RunResult>) -> (r:
    Result<String, WorkspaceDiffError>)
    ensures
        r matches Ok(t) ==> workspace_diff_of(changes, listing, extras@) == Ok::<
            Seq<char>,
            WorkspaceDiffError,
        >(t@),
        r matches Err(e) ==> workspace_diff_of(changes, listing, extras@) == Err::<
            Seq<char>,
            WorkspaceDiffError,
        >(e),
{
    let mut diff = match capture_diff(&changes) {
        Ok(d) => d,
        Err(e) => return Err(e),
    };
    match &listing {
        Err(RunFailure::NotFound) => return Err(WorkspaceDiffError::Spawn { not_found: true }),
        Err(RunFailure::Other) => return Err(WorkspaceDiffError::Spawn { not_found: false }),
        Ok(o) => {
            if !o.success() {
                return Err(WorkspaceDiffError::Status { code: o.code });
            }
        },
    }
    let ghost d0 = diff@;
    let ghost all = extras@;
    let mut i: usize = 0;
    assert(all.subrange(0, 0) =~= Seq::<RunResult>::empty());
    assert(d0 + Seq::<char>::empty() =~= d0);
    while i < extras.len()
        invariant
            i <= extras.len(),
            all == extras@,
            workspace_blocks(all.subrange(0, i as int)) matches Ok(b) && diff@ == d0 + b,
            captured_diff(changes) == Ok::<Seq<char>, WorkspaceDiffError>(d0),
            listing matches Ok(o) && o.succeeded(),
        decreases extras.len() - i,
    {
        let ghost w = all.subrange(0, i + 1);
        assert(w.drop_last() =~= all.subrange(0, i as int));
        assert(w.last() == all[i as int]);
        let ghost before = diff@;
        match capture_diff(&extras[i]) {
            Ok(t) => {
                diff.append(t.as_str());
                assert(diff@ =~= d0 + workspace_blocks(w)->Ok_0);
            },
            Err(WorkspaceDiffError::Spawn { not_found: true }) => {},
            Err(e) => {
                proof {
                    assert(workspace_blocks(w) == Err::<Seq<char>, WorkspaceDiffError>(e));
                    lemma_blocks_error_persists(all, i as int + 1);
                }
                return Err(e);
            },
        }
        i = i + 1;
    }
    assert(all.subrange(0, extras.len() as int) =~= all);
    Ok(diff)
}

/// Once the blocks of a prefix fail, the blocks of the whole fail the same
/// way.
proof fn lemma_blocks_error_persists(all: Seq<RunResult>, k: int)
    requires
        0 <= k <= all.len(),
        workspace_blocks(all.subrange(0, k)) is Err,
    ensures
        workspace_blocks(all) == workspace_blocks(all.subrange(0, k)),
    decreases all.len() - k,
{
    if k == all.len() {
        assert(all.subrange(0, k) =~= all);
    } else {
        let w = all.subrange(0, k + 1);
        assert(w.drop_last() =~= all.subrange(0, k));
        lemma_blocks_error_persists(all, k + 1);
    }
}

} // verus!
