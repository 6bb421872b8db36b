//! The decisions of Darcs snapshots: where the scope lies in the repository,
//! which files are copied, what is cleared before a restore, and how a
//! command's outcome is reported.
use vstd::prelude::*;
use vstd::string::*;

use crate::command::command_line;
use crate::command::format_command;
use crate::command::CommandOutput;
use crate::errors::DarcsSnapshotError;
use crate::paths::components;
use crate::paths::in_scope;
use crate::paths::is_prefix_of;
use crate::paths::join_from;
use crate::paths::joined;
use crate::paths::non_empty_of;
use crate::paths::non_empty_path;
use crate::paths::path_components;
use crate::paths::same_path;
use crate::paths::starts_with_parts;
use crate::paths::within_scope;
use crate::text::decode_utf8_lossy;
use crate::text::same_text;
use crate::text::utf8_lossy_text;
use crate::text::views;

verus! {

/// The directory in which Darcs keeps the repository's own data.
pub open spec fn metadata_dir() -> Seq<char> {
    "_darcs"@
}

/// `rel` lies in the metadata directory, or is it.
pub open spec fn in_metadata(rel: Seq<char>) -> bool {
    components(rel).len() > 0 && components(rel)[0] == metadata_dir()
}

/// The scope relative to the root, found by comparing the paths as given:
/// `Some(None)` when the scope is the root, `Some(Some(rel))` when it lies
/// below it without going up through "..", `None` when the paths as given do
/// not settle it.
pub open spec fn direct_scope_of(root: Seq<char>, scope: Seq<char>) -> Option<
    Option<Seq<char>>,
> {
    let rc = components(root);
    let sc = components(scope);
    if rc == sc {
        Some(None)
    } else if is_prefix_of(rc, sc) && !sc.subrange(rc.len() as int, sc.len() as int).contains(
        ".."@,
    ) {
        Some(non_empty_of(joined(sc.subrange(rc.len() as int, sc.len() as int))))
    } else {
        None
    }
}

/// Compares the scope with the root as given.
pub fn direct_scope(root: &str, scope: &str) -> (r: Option<Option<String>>)
    ensures
        r matches Some(x) ==> direct_scope_of(root@, scope@) matches Some(y) && y == match x {
            Some(p) => Some(p@),
            None => None,
        },
        r is None ==> direct_scope_of(root@, scope@) is None,
{
    if same_path(root, scope) {
        return Some(None);
    }
    let rc = path_components(root);
    let sc = path_components(scope);
    if !starts_with_parts(&sc, &rc) {
        return None;
    }
    let ghost rest = views(sc@).subrange(rc.len() as int, sc.len() as int);
    let mut i: usize = rc.len();
    while i < sc.len()
        invariant
            rc.len() <= i <= sc.len(),
            rest == views(sc@).subrange(rc.len() as int, sc.len() as int),
            forall|k: int| rc.len() <= k < i ==> sc@[k]@ != ".."@,
            components(root@) != components(scope@),
            views(rc@) == components(root@),
            views(sc@) == components(scope@),
            is_prefix_of(views(rc@), views(sc@)),
        decreases sc.len() - i,
    {
        if same_text(sc[i].as_str(), "..") {
            assert(rest[i - rc.len()] == sc@[i as int]@);
            assert(rest.contains(".."@));
            assert(components(root@) != components(scope@));
            return None;
        }
        i = i + 1;
    }
    assert(!rest.contains(".."@)) by {
        assert forall|k: int| 0 <= k < rest.len() implies rest[k] != ".."@ by {
            assert(rest[k] == sc@[k + rc.len()]@);
        }
    }
    let rel = join_from(&sc, rc.len());
    Some(non_empty_path(rel.as_str()))
}

/// The scope relative to the root, from their canonical forms: `None` when
/// the scope lies outside the root.
pub open spec fn canonical_scope_of(root_canon: Seq<char>, scope_canon: Seq<char>) -> Option<
    Option<Seq<char>>,
> {
    let rc = components(root_canon);
    let sc = components(scope_canon);
    if is_prefix_of(rc, sc) {
        Some(non_empty_of(joined(sc.subrange(rc.len() as int, sc.len() as int))))
    } else {
        None
    }
}

/// Places the scope within the repository from the canonical forms of both
/// paths; a scope outside it is an error that names both paths as given.
pub fn scope_within_repo(repo_root: &str, scope: &str, root_canon: &str, scope_canon: &str) -> (r:
    Result<Option<String>, DarcsSnapshotError>)
    ensures
        r matches Ok(x) ==> canonical_scope_of(root_canon@, scope_canon@) matches Some(y) && y
            == match x {
            Some(p) => Some(p@),
            None => None,
        },
        r is Err ==> canonical_scope_of(root_canon@, scope_canon@) is None && (r matches Err(
            DarcsSnapshotError::PathOutsideRepository { path, root },
        ) && path@ == scope@ && root@ == repo_root@),
{
    let rc = path_components(root_canon);
    let sc = path_components(scope_canon);
    if !starts_with_parts(&sc, &rc) {
        return Err(
            DarcsSnapshotError::PathOutsideRepository {
                path: String::from_str(scope),
                root: String::from_str(repo_root),
            },
        );
    }
    let rel = join_from(&sc, rc.len());
    Ok(non_empty_path(rel.as_str()))
}

/// The arguments of the dry run of `record` that checks the workspace before
/// a snapshot is taken.
pub open spec fn dry_run_args() -> Seq<Seq<char>> {
    seq![
        "record"@,
        "--dry-run"@,
        "--all"@,
        "--look-for-adds"@,
        "--patch"@,
        "codex-snapshot"@,
        "--author"@,
        "Codex Snapshot <snapshot@codex.local>"@,
    ]
}

pub fn record_dry_run_args() -> (r: Vec<String>)
    ensures
        views(r@) == dry_run_args(),
{
    let r = vec![
        String::from_str("record"),
        String::from_str("--dry-run"),
        String::from_str("--all"),
        String::from_str("--look-for-adds"),
        String::from_str("--patch"),
        String::from_str("codex-snapshot"),
        String::from_str("--author"),
        String::from_str("Codex Snapshot <snapshot@codex.local>"),
    ];
    assert(views(r@) =~= dry_run_args());
    r
}

/// The arguments of the `revert` that undoes unrecorded changes before a
/// restore.
pub fn revert_all_args() -> (r: Vec<String>)
    ensures
        views(r@) == seq!["revert"@, "--all"@],
{
    let r = vec![String::from_str("revert"), String::from_str("--all")];
    assert(views(r@) =~= seq!["revert"@, "--all"@]);
    r
}

/// What a darcs command run with `args` comes to: success, the error of a
/// command that could not be run (`Err` with the system's message), or a
/// failure that names the command line, the status and what it printed on
/// standard error.
pub fn command_status(args: &Vec<String>, out: Result<CommandOutput, String>) -> (r: Result<
    (),
    DarcsSnapshotError,
>)
    ensures
        out matches Err(m) ==> (r matches Err(DarcsSnapshotError::Io { message }) && message@
            == m@),
        out matches Ok(o) ==> (o.succeeded() <==> r is Ok),
        out matches Ok(o) ==> (!o.succeeded() ==> (r matches Err(
            DarcsSnapshotError::CommandFailed { command, status, stderr },
        ) && command@ == command_line("darcs"@, views(args@)) && status == o.code && stderr@
            == utf8_lossy_text(o.stderr@))),
{
    match out {
        Err(message) => Err(DarcsSnapshotError::Io { message }),
        Ok(o) => {
            if o.success() {
                Ok(())
            } else {
                Err(
                    DarcsSnapshotError::CommandFailed {
                        command: format_command("darcs", args),
                        status: o.code,
                        stderr: decode_utf8_lossy(&o.stderr),
                    },
                )
            }
        },
    }
}

/// Whether the walk descends into a directory: never into the metadata
/// directory at the top of the repository.
pub fn should_include_entry(relative: &str, is_dir: bool) -> (r: bool)
    ensures
        r == (!is_dir || !in_metadata(relative@)),
{
    if !is_dir {
        return true;
    }
    let c = path_components(relative);
    if c.len() == 0 {
        return true;
    }
    proof {
        reveal_strlit("_darcs");
    }
    !same_text(c[0].as_str(), "_darcs")
}

/// A snapshot copies the entry at `rel` (relative to the repository root)
/// when it is not the root itself, lies in the scope, and is not Darcs's own
/// data.
pub open spec fn copied(rel: Seq<char>, scope: Option<Seq<char>>) -> bool {
    rel.len() > 0 && in_scope(rel, scope) && !in_metadata(rel)
}

/// For each walked entry, given by its path relative to the repository root,
/// whether the snapshot copies it.
pub fn copy_selection(entries: &Vec<String>, scope: Option<&str>) -> (r: Vec<bool>)
    ensures
        r.len() == entries.len(),
        forall|k: int|
            0 <= k < r.len() ==> r[k] == copied(
                entries@[k]@,
                match scope {
                    Some(s) => Some(s@),
                    None => None,
                },
            ),
{
    let mut out: Vec<bool> = Vec::new();
    let mut i: usize = 0;
    while i < entries.len()
        invariant
            i <= entries.len(),
            out.len() == i,
            forall|k: int|
                0 <= k < i ==> out[k] == copied(
                    entries@[k]@,
                    match scope {
                        Some(s) => Some(s@),
                        None => None,
                    },
                ),
        decreases entries.len() - i,
    {
        let rel = entries[i].as_str();
        let keep = rel.unicode_len() > 0 && within_scope(rel, scope) && should_include_entry(
            rel,
            true,
        );
        out.push(keep);
        i = i + 1;
    }
    out
}

/// What a restore clears, relative to the repository root: every entry at the
/// top of the repository but the metadata directory when the snapshot covers
/// the whole repository, else the scope itself when it exists.
pub open spec fn cleared_entries(
    relative: Option<Seq<char>>,
    target_exists: bool,
    top: Seq<Seq<char>>,
) -> Seq<Seq<char>> {
    match relative {
        None => top.filter(|n: Seq<char>| n != metadata_dir()),
        Some(p) => if target_exists {
            seq![p]
        } else {
            Seq::empty()
        },
    }
}

/// The paths to remove before a restore, relative to the repository root.
/// `top` holds the names of the entries at the top of the repository.
pub fn clear_targets(relative: Option<&str>, target_exists: bool, top: &Vec<String>) -> (r: Vec<
    String,
>)
    ensures
        views(r@) == cleared_entries(
            match relative {
                Some(p) => Some(p@),
                None => None,
            },
            target_exists,
            views(top@),
        ),
{
    match relative {
        Some(p) => {
            if target_exists {
                let r = vec![String::from_str(p)];
                assert(views(r@) =~= seq![p@]);
                r
            } else {
                let r: Vec<String> = Vec::new();
                assert(views(r@) =~= Seq::<Seq<char>>::empty());
                r
            }
        },
        None => {
            let ghost all = views(top@);
            let mut out: Vec<String> = Vec::new();
            let mut i: usize = 0;
            while i < top.len()
                invariant
                    i <= top.len(),
                    all == views(top@),
                    views(out@) == all.subrange(0, i as int).filter(
                        |n: Seq<char>| n != metadata_dir(),
                    ),
                decreases top.len() - i,
            {
                proof {
                    let w = all.subrange(0, i + 1);
                    assert(w.drop_last() =~= all.subrange(0, i as int));
                    reveal(Seq::filter);
                    assert(w.last() == top@[i as int]@);
                    reveal_strlit("_darcs");
                }
                if !same_text(top[i].as_str(), "_darcs") {
                    let item = top[i].clone();
                    proof {
                        assert(views(out@.push(item)) =~= views(out@).push(item@));
                    }
                    out.push(item);
                }
                i = i + 1;
            }
            assert(all.subrange(0, top.len() as int) =~= all);
            out
        },
    }
}

/// The identifier of a snapshot stored in a directory named `name`, or a
/// fixed one when the directory's name cannot be read.
pub fn snapshot_id(name: Option<String>) -> (r: String)
    ensures
        name matches Some(n) ==> r@ == n@,
        name is None ==> r@ == "codex-darcs-snapshot"@,
{
    match name {
        Some(n) => n,
        None => String::from_str("codex-darcs-snapshot"),
    }
}

} // verus!
