//! The revision-control backends, what each can do, and which one governs a
//! workspace.
use vstd::prelude::*;
use vstd::string::*;

use crate::command::success_text;
use crate::command::output_text;
use crate::command::CommandOutput;
use crate::paths::join_of;
use crate::paths::join_path;
use crate::text::trim;
use crate::text::trimmed;
use crate::text::opt_text;
use crate::text::views;

verus! {

/// The revision-control backends supported.
#[derive(Clone, Copy, Debug, PartialEq, Eq, Structural)]
pub enum RevisionControlKind {
    Git,
    Darcs,
}

impl RevisionControlKind {
    /// Human readable name of the backend.
    pub fn display_name(&self) -> (r: &'static str)
        ensures
            *self is Git ==> r@ == "Git"@,
            *self is Darcs ==> r@ == "Darcs"@,
    {
        match self {
            RevisionControlKind::Git => "Git",
            RevisionControlKind::Darcs => "Darcs",
        }
    }
}

/// What a backend supports.
#[derive(Clone, Copy, Debug, Default, PartialEq, Eq, Structural)]
pub struct RevisionControlCapabilities {
    pub supports_diffs: bool,
    pub supports_snapshots: bool,
}

impl RevisionControlCapabilities {
    pub fn new(supports_diffs: bool, supports_snapshots: bool) -> (r: Self)
        ensures
            r.supports_diffs == supports_diffs,
            r.supports_snapshots == supports_snapshots,
    {
        RevisionControlCapabilities { supports_diffs, supports_snapshots }
    }

    /// The capabilities of `kind`: both backends support diffs and snapshots.
    pub open spec fn of_kind(kind: RevisionControlKind) -> Self {
        RevisionControlCapabilities { supports_diffs: true, supports_snapshots: true }
    }

    pub fn for_kind(kind: RevisionControlKind) -> (r: Self)
        ensures
            r == Self::of_kind(kind),
    {
        match kind {
            RevisionControlKind::Git => Self::new(true, true),
            RevisionControlKind::Darcs => Self::new(true, true),
        }
    }
}

/// A revision-control system governing a workspace.
pub trait RevisionControlSystem {
    fn kind(&self) -> RevisionControlKind;

    fn root(&self) -> &str;

    fn capabilities(&self) -> RevisionControlCapabilities;

    fn display_name(&self) -> &'static str;

    /// Why the backend's tooling cannot be used, if it cannot.
    fn tooling_error(&self) -> Option<&str>;
}

/// The backend detected for a workspace.
#[derive(Clone, Debug, PartialEq, Eq)]
pub struct DetectedRevisionControl {
    pub kind: RevisionControlKind,
    pub root: String,
    pub capabilities: RevisionControlCapabilities,
    pub tooling_error: Option<String>,
}

impl DetectedRevisionControl {
    pub fn new(kind: RevisionControlKind, root: String) -> (r: Self)
        ensures
            r.kind == kind,
            r.root@ == root@,
            r.capabilities == RevisionControlCapabilities::of_kind(kind),
            r.tooling_error is None,
    {
        Self::new_with_tooling_error(kind, root, None)
    }

    pub fn new_with_tooling_error(
        kind: RevisionControlKind,
        root: String,
        tooling_error: Option<String>,
    ) -> (r: Self)
        ensures
            r.kind == kind,
            r.root@ == root@,
            r.capabilities == RevisionControlCapabilities::of_kind(kind),
            r.tooling_error == tooling_error,
    {
        let capabilities = RevisionControlCapabilities::for_kind(kind);
        DetectedRevisionControl { kind, root, capabilities, tooling_error }
    }
}

impl RevisionControlSystem for DetectedRevisionControl {
    fn kind(&self) -> RevisionControlKind {
        self.kind
    }

    fn root(&self) -> &str {
        self.root.as_str()
    }

    fn capabilities(&self) -> RevisionControlCapabilities {
        self.capabilities
    }

    fn display_name(&self) -> &'static str {
        self.kind.display_name()
    }

    fn tooling_error(&self) -> Option<&str> {
        match &self.tooling_error {
            Some(e) => Some(e.as_str()),
            None => None,
        }
    }
}

/// What is reported when a Darcs repository is found but the `darcs` program
/// is not.
pub open spec fn darcs_missing_message() -> Seq<char> {
    "Darcs repository detected but the `darcs` CLI is not installed. Install it to enable Codex's Darcs integration."@
}

/// The message to surface about the `darcs` program: none when it is
/// installed.
pub fn missing_darcs_message(available: bool) -> (r: Option<String>)
    ensures
        available ==> r is None,
        !available ==> (r matches Some(m) && m@ == darcs_missing_message()),
{
    if available {
        None
    } else {
        Some(
            String::from_str(
                "Darcs repository detected but the `darcs` CLI is not installed. Install it to enable Codex's Darcs integration.",
            ),
        )
    }
}

/// Relies on `which::which`: whether an executable named `darcs` is found on
/// the search path. The answer depends on the machine, so nothing is stated of it.
#[verifier::external_body]
pub fn darcs_cli_available() -> (r: bool) {
    which::which("darcs").is_ok()
}

/// The message about a missing `darcs` program, when it is missing.
pub fn warn_missing_darcs_cli() -> (r: Option<String>)
    ensures
        r matches Some(m) ==> m@ == darcs_missing_message(),
{
    missing_darcs_message(darcs_cli_available())
}

/// The nearest marked directory of the walk `dirs` (nearest first) and its
/// backend: the first directory that holds `.git` (flag in `git`) or
/// `_darcs` (flag in `darcs`), Git when it holds both.
pub open spec fn nearest_marker(dirs: Seq<Seq<char>>, git: Seq<bool>, darcs: Seq<bool>) -> Option<
    (RevisionControlKind, Seq<char>),
>
    decreases dirs.len(),
{
    if dirs.len() == 0 || git.len() == 0 || darcs.len() == 0 {
        None
    } else if git[0] {
        Some((RevisionControlKind::Git, dirs[0]))
    } else if darcs[0] {
        Some((RevisionControlKind::Darcs, dirs[0]))
    } else {
        nearest_marker(dirs.drop_first(), git.drop_first(), darcs.drop_first())
    }
}

/// The message that detection attaches to a backend: for Darcs, the message
/// about a missing `darcs` program when it is missing.
pub open spec fn tooling_message(kind: RevisionControlKind, darcs_available: bool) -> Option<
    Seq<char>,
> {
    if kind is Darcs && !darcs_available {
        Some(darcs_missing_message())
    } else {
        None
    }
}

/// Detects the backend of a workspace from the upward walk `dirs` (the
/// workspace first, as [`crate::paths::ancestors`] gives it) and whether each
/// directory holds `.git` (`git_marked`) or `_darcs` (`darcs_marked`): the
/// nearest marker wins, Git when one directory holds both.
pub fn detect_revision_control(
    dirs: &Vec<String>,
    git_marked: &Vec<bool>,
    darcs_marked: &Vec<bool>,
    darcs_available: bool,
) -> (r: Option<DetectedRevisionControl>)
    ensures
        r matches Some(d) ==> d.capabilities == RevisionControlCapabilities::of_kind(d.kind)
            && nearest_marker(views(dirs@), git_marked@, darcs_marked@) == Some((d.kind, d.root@))
            && opt_text(d.tooling_error) == tooling_message(d.kind, darcs_available),
        r is None ==> nearest_marker(views(dirs@), git_marked@, darcs_marked@) is None,
{
    let ghost all = views(dirs@);
    let mut i: usize = 0;
    assert(all.subrange(0, all.len() as int) =~= all);
    assert(git_marked@.subrange(0, git_marked@.len() as int) =~= git_marked@);
    assert(darcs_marked@.subrange(0, darcs_marked@.len() as int) =~= darcs_marked@);
    while i < dirs.len() && i < git_marked.len() && i < darcs_marked.len()
        invariant
            i <= dirs.len(),
            i <= git_marked.len(),
            i <= darcs_marked.len(),
            all == views(dirs@),
            nearest_marker(
                all.subrange(i as int, all.len() as int),
                git_marked@.subrange(i as int, git_marked@.len() as int),
                darcs_marked@.subrange(i as int, darcs_marked@.len() as int),
            ) == nearest_marker(all, git_marked@, darcs_marked@),
        decreases dirs.len() - i,
    {
        let ghost a = all.subrange(i as int, all.len() as int);
        let ghost g = git_marked@.subrange(i as int, git_marked@.len() as int);
        let ghost m = darcs_marked@.subrange(i as int, darcs_marked@.len() as int);
        assert(a.drop_first() =~= all.subrange(i + 1, all.len() as int));
        assert(g.drop_first() =~= git_marked@.subrange(i + 1, git_marked@.len() as int));
        assert(m.drop_first() =~= darcs_marked@.subrange(i + 1, darcs_marked@.len() as int));
        assert(a[0] == dirs@[i as int]@);
        if git_marked[i] {
            return Some(DetectedRevisionControl::new(RevisionControlKind::Git, dirs[i].clone()));
        }
        if darcs_marked[i] {
            let tooling_error = missing_darcs_message(darcs_available);
            return Some(
                DetectedRevisionControl::new_with_tooling_error(
                    RevisionControlKind::Darcs,
                    dirs[i].clone(),
                    tooling_error,
                ),
            );
        }
        i = i + 1;
    }
    assert(all.subrange(i as int, all.len() as int).len() == 0 || git_marked@.subrange(
        i as int,
        git_marked@.len() as int,
    ).len() == 0 || darcs_marked@.subrange(i as int, darcs_marked@.len() as int).len() == 0);
    None
}

/// The first of `dirs` whose flag in `marked` is set.
pub open spec fn first_marked_of(dirs: Seq<Seq<char>>, marked: Seq<bool>) -> Option<Seq<char>>
    decreases dirs.len(),
{
    if dirs.len() == 0 || marked.len() == 0 {
        None
    } else if marked[0] {
        Some(dirs[0])
    } else {
        first_marked_of(dirs.drop_first(), marked.drop_first())
    }
}

/// The nearest directory that holds the backend's marker, given the
/// directories from the workspace upward and whether each holds it.
pub fn first_marked(dirs: &Vec<String>, marked: &Vec<bool>) -> (r: Option<String>)
    ensures
        r matches Some(d) ==> first_marked_of(views(dirs@), marked@) == Some(d@),
        r is None ==> first_marked_of(views(dirs@), marked@) is None,
{
    let ghost all = views(dirs@);
    let mut i: usize = 0;
    assert(all.subrange(0, all.len() as int) =~= all);
    assert(marked@.subrange(0, marked@.len() as int) =~= marked@);
    while i < dirs.len() && i < marked.len()
        invariant
            i <= dirs.len(),
            i <= marked.len(),
            all == views(dirs@),
            first_marked_of(all.subrange(i as int, all.len() as int), marked@.subrange(i as int, marked@.len() as int))
                == first_marked_of(all, marked@),
        decreases dirs.len() - i,
    {
        let ghost a = all.subrange(i as int, all.len() as int);
        let ghost m = marked@.subrange(i as int, marked@.len() as int);
        assert(a.drop_first() =~= all.subrange(i + 1, all.len() as int));
        assert(m.drop_first() =~= marked@.subrange(i + 1, marked@.len() as int));
        if marked[i] {
            assert(a[0] == dirs@[i as int]@);
            return Some(dirs[i].clone());
        }
        i = i + 1;
    }
    assert(all.subrange(i as int, all.len() as int).len() == 0 || marked@.subrange(
        i as int,
        marked@.len() as int,
    ).len() == 0);
    None
}

/// Where trust is granted for a workspace: the Git project root that
/// `git_trust_root` gives for a Git workspace, the repository root itself for
/// a Darcs one.
pub fn resolve_revision_control_project_for_trust(
    detected: &DetectedRevisionControl,
    git_trust_root: Option<String>,
) -> (r: Option<String>)
    ensures
        detected.kind is Git ==> r == git_trust_root,
        detected.kind is Darcs ==> (r matches Some(p) && p@ == detected.root@),
{
    match detected.kind {
        RevisionControlKind::Git => git_trust_root,
        RevisionControlKind::Darcs => Some(detected.root.clone()),
    }
}

/// The Git directory that `rev-parse --git-common-dir` names, run in `base`:
/// its trimmed output, taken relative to `base` unless it is absolute.
pub open spec fn git_common_dir_of(base: Seq<char>, out: Option<CommandOutput>) -> Option<
    Seq<char>,
> {
    match success_text(out) {
        Some(t) => Some(join_of(base, trimmed(t))),
        None => None,
    }
}

pub fn git_common_dir(base: &str, out: Option<CommandOutput>) -> (r: Option<String>)
    ensures
        r matches Some(p) ==> git_common_dir_of(base@, out) == Some(p@),
        r is None ==> git_common_dir_of(base@, out) is None,
{
    match output_text(out) {
        Some(t) => Some(join_path(base, trim(t.as_str()))),
        None => None,
    }
}

} // verus!
