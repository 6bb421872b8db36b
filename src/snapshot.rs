//! Snapshots of a workspace, for Git (a commit that no branch reaches) and
//! for Darcs (a copy of the scoped files in storage that the snapshot owns),
//! and the decisions of creating and restoring them.
use std::sync::Arc;

use vstd::prelude::*;
use vstd::string::*;

use crate::backend::DetectedRevisionControl;
use crate::backend::RevisionControlKind;
use crate::darcs_snapshots::cleared_entries;
use crate::darcs_snapshots::copied;
use crate::darcs_snapshots::metadata_dir;
use crate::darcs_snapshots::in_metadata;
use crate::errors::SnapshotError;
use crate::paths::components;
use crate::paths::in_scope;
use crate::text::same_text;

verus! {

/// A temporary directory that is deleted when its owner is dropped.
#[verifier::external_type_specification]
#[verifier::external_body]
pub struct ExTempDir(tempfile::TempDir);

/// A commit that records the working tree and that no branch reaches.
#[derive(Debug, Clone, PartialEq, Eq)]
pub struct GhostCommit {
    id: String,
    parent: Option<String>,
}

impl GhostCommit {
    pub closed spec fn spec_id(&self) -> Seq<char> {
        self.id@
    }

    pub closed spec fn spec_parent(&self) -> Option<Seq<char>> {
        match self.parent {
            Some(p) => Some(p@),
            None => None,
        }
    }

    /// A ghost commit with the commit id `id`, whose parent is `parent`.
    pub fn new(id: String, parent: Option<String>) -> (r: Self)
        ensures
            r.spec_id() == id@,
            r.spec_parent() == match parent {
                Some(p) => Some(p@),
                None => None,
            },
    {
        GhostCommit { id, parent }
    }

    /// The commit id.
    pub fn id(&self) -> (r: &str)
        ensures
            r@ == self.spec_id(),
    {
        self.id.as_str()
    }

    /// The commit HEAD was on when the snapshot was taken, if there was one.
    pub fn parent(&self) -> (r: Option<&str>)
        ensures
            r matches Some(p) ==> self.spec_parent() == Some(p@),
            r is None ==> self.spec_parent() is None,
    {
        match &self.parent {
            Some(p) => Some(p.as_str()),
            None => None,
        }
    }
}

/// A copy of the files of a Darcs workspace within a scope, held in storage
/// that the snapshot owns: the directory is deleted when the last copy of the
/// snapshot is dropped.
#[derive(Clone)]
pub struct DarcsSnapshot {
    id: String,
    relative_path: Option<String>,
    storage_path: String,
    storage: Arc<tempfile::TempDir>,
}

impl DarcsSnapshot {
    pub closed spec fn spec_id(&self) -> Seq<char> {
        self.id@
    }

    pub closed spec fn spec_relative_path(&self) -> Option<Seq<char>> {
        match self.relative_path {
            Some(p) => Some(p@),
            None => None,
        }
    }

    pub closed spec fn spec_storage_path(&self) -> Seq<char> {
        self.storage_path@
    }

    /// A snapshot named `id` of the scope `relative_path` (`None`: the whole
    /// repository), whose files are in `storage`, found at `storage_path`.
    pub fn new(
        id: String,
        relative_path: Option<String>,
        storage_path: String,
        storage: tempfile::TempDir,
    ) -> (r: Self)
        ensures
            r.spec_id() == id@,
            r.spec_relative_path() == match relative_path {
                Some(p) => Some(p@),
                None => None,
            },
            r.spec_storage_path() == storage_path@,
    {
        DarcsSnapshot { id, relative_path, storage_path, storage: Arc::new(storage) }
    }

    pub fn id(&self) -> (r: &str)
        ensures
            r@ == self.spec_id(),
    {
        self.id.as_str()
    }

    /// The scope, relative to the repository root; `None` for the whole
    /// repository.
    pub fn relative_path(&self) -> (r: Option<&str>)
        ensures
            r matches Some(p) ==> self.spec_relative_path() == Some(p@),
            r is None ==> self.spec_relative_path() is None,
    {
        match &self.relative_path {
            Some(p) => Some(p.as_str()),
            None => None,
        }
    }

    /// Where the copied files are.
    pub fn storage_path(&self) -> (r: &str)
        ensures
            r@ == self.spec_storage_path(),
    {
        self.storage_path.as_str()
    }

    /// Two snapshots are the same when their id, scope and storage agree.
    pub fn same_as(&self, other: &DarcsSnapshot) -> (r: bool)
        ensures
            r == (self.spec_id() == other.spec_id() && self.spec_relative_path()
                == other.spec_relative_path() && self.spec_storage_path()
                == other.spec_storage_path()),
    {
        let same_scope = match (&self.relative_path, &other.relative_path) {
            (Some(a), Some(b)) => same_text(a.as_str(), b.as_str()),
            (None, None) => true,
            _ => false,
        };
        same_text(self.id.as_str(), other.id.as_str()) && same_scope && same_text(
            self.storage_path.as_str(),
            other.storage_path.as_str(),
        )
    }
}

/// A snapshot of a workspace.
#[derive(Clone)]
pub enum Snapshot {
    Git(GhostCommit),
    Darcs(DarcsSnapshot),
}

impl Snapshot {
    pub open spec fn spec_kind(&self) -> RevisionControlKind {
        match self {
            Snapshot::Git(_) => RevisionControlKind::Git,
            Snapshot::Darcs(_) => RevisionControlKind::Darcs,
        }
    }

    pub open spec fn spec_id(&self) -> Seq<char> {
        match self {
            Snapshot::Git(c) => c.spec_id(),
            Snapshot::Darcs(d) => d.spec_id(),
        }
    }

    /// The backend the snapshot belongs to.
    pub fn kind(&self) -> (r: RevisionControlKind)
        ensures
            r == self.spec_kind(),
    {
        match self {
            Snapshot::Git(_) => RevisionControlKind::Git,
            Snapshot::Darcs(_) => RevisionControlKind::Darcs,
        }
    }

    /// The snapshot's identifier.
    pub fn id(&self) -> (r: &str)
        ensures
            r@ == self.spec_id(),
    {
        match self {
            Snapshot::Git(c) => c.id(),
            Snapshot::Darcs(d) => d.id(),
        }
    }

    /// The first eight characters of the identifier, for display.
    pub fn short_id(&self) -> (r: String)
        ensures
            r@ == self.spec_id().take(
                if self.spec_id().len() < 8 {
                    self.spec_id().len() as int
                } else {
                    8
                },
            ),
    {
        let id = self.id();
        let n = id.unicode_len();
        let end = if n < 8 {
            n
        } else {
            8
        };
        String::from_str(id.substring_char(0, end))
    }
}

/// Creates and restores snapshots for the backend of one workspace.
pub struct RepoSnapshotManager {
    kind: RevisionControlKind,
    root: String,
    supports_snapshots: bool,
    storage_root: String,
}

impl RepoSnapshotManager {
    pub closed spec fn spec_kind(&self) -> RevisionControlKind {
        self.kind
    }

    pub closed spec fn spec_root(&self) -> Seq<char> {
        self.root@
    }

    pub closed spec fn spec_supports_snapshots(&self) -> bool {
        self.supports_snapshots
    }

    pub closed spec fn spec_storage_root(&self) -> Seq<char> {
        self.storage_root@
    }

    /// A manager for the workspace that `backend` governs, keeping Darcs
    /// snapshots under `storage_root`.
    pub fn new(backend: &DetectedRevisionControl, storage_root: String) -> (r: Self)
        ensures
            r.spec_kind() == backend.kind,
            r.spec_root() == backend.root@,
            r.spec_supports_snapshots() == backend.capabilities.supports_snapshots,
            r.spec_storage_root() == storage_root@,
    {
        RepoSnapshotManager {
            kind: backend.kind,
            root: backend.root.clone(),
            supports_snapshots: backend.capabilities.supports_snapshots,
            storage_root,
        }
    }

    /// The same manager, keeping Darcs snapshots under `storage_root`.
    pub fn with_storage_root(self, storage_root: String) -> (r: Self)
        ensures
            r.spec_kind() == self.spec_kind(),
            r.spec_root() == self.spec_root(),
            r.spec_supports_snapshots() == self.spec_supports_snapshots(),
            r.spec_storage_root() == storage_root@,
    {
        RepoSnapshotManager { storage_root, ..self }
    }

    pub fn kind(&self) -> (r: RevisionControlKind)
        ensures
            r == self.spec_kind(),
    {
        self.kind
    }

    pub fn root(&self) -> (r: &str)
        ensures
            r@ == self.spec_root(),
    {
        self.root.as_str()
    }

    pub fn storage_root(&self) -> (r: &str)
        ensures
            r@ == self.spec_storage_root(),
    {
        self.storage_root.as_str()
    }

    /// Decides whether a snapshot can be created, before anything on disk is
    /// touched: a Darcs workspace needs the `darcs` program, and the backend
    /// must support snapshots. `Ok` names the backend whose strategy runs.
    pub fn create_route(&self, darcs_available: bool) -> (r: Result<
        RevisionControlKind,
        SnapshotError,
    >)
        ensures
            self.spec_kind() is Darcs && !darcs_available ==> (r matches Err(
                SnapshotError::MissingTool { tool },
            ) && tool@ == "darcs"@),
            (self.spec_kind() is Git || darcs_available) && !self.spec_supports_snapshots() ==> (r
                matches Err(SnapshotError::UnsupportedRevisionControl { kind }) && kind
                == self.spec_kind()),
            (self.spec_kind() is Git || darcs_available) && self.spec_supports_snapshots() ==> r
                == Ok::<RevisionControlKind, SnapshotError>(self.spec_kind()),
    {
        if self.kind == RevisionControlKind::Darcs && !darcs_available {
            return Err(SnapshotError::MissingTool { tool: String::from_str("darcs") });
        }
        if !self.supports_snapshots {
            return Err(SnapshotError::UnsupportedRevisionControl { kind: self.kind });
        }
        Ok(self.kind)
    }

    /// Decides whether `snapshot` can be restored here, before anything on
    /// disk is touched: it must come from the same backend, a Darcs workspace
    /// needs the `darcs` program, and the backend must support snapshots.
    pub fn restore_route(&self, snapshot: &Snapshot, darcs_available: bool) -> (r: Result<
        RevisionControlKind,
        SnapshotError,
    >)
        ensures
            snapshot.spec_kind() != self.spec_kind() ==> r == Err::<
                RevisionControlKind,
                SnapshotError,
            >(
                SnapshotError::MismatchedSnapshot {
                    expected: self.spec_kind(),
                    actual: snapshot.spec_kind(),
                },
            ),
            snapshot.spec_kind() == self.spec_kind() && self.spec_kind() is Darcs
                && !darcs_available ==> (r matches Err(SnapshotError::MissingTool { tool }) && tool@
                == "darcs"@),
            snapshot.spec_kind() == self.spec_kind() && (self.spec_kind() is Git
                || darcs_available) && !self.spec_supports_snapshots() ==> (r matches Err(
                SnapshotError::UnsupportedRevisionControl { kind },
            ) && kind == self.spec_kind()),
            snapshot.spec_kind() == self.spec_kind() && (self.spec_kind() is Git
                || darcs_available) && self.spec_supports_snapshots() ==> r == Ok::<
                RevisionControlKind,
                SnapshotError,
            >(self.spec_kind()),
    {
        let actual = snapshot.kind();
        if actual != self.kind {
            return Err(SnapshotError::MismatchedSnapshot { expected: self.kind, actual });
        }
        self.create_route(darcs_available)
    }

    /// Decides whether the workspace can be reset to a commit named by the
    /// caller: only Git workspaces can.
    pub fn restore_to_commit_route(&self) -> (r: Result<(), SnapshotError>)
        ensures
            self.spec_kind() is Git ==> r is Ok,
            self.spec_kind() is Darcs ==> r == Err::<(), SnapshotError>(
                SnapshotError::UnsupportedRevisionControl { kind: self.spec_kind() },
            ),
    {
        match self.kind {
            RevisionControlKind::Git => Ok(()),
            other => Err(SnapshotError::UnsupportedRevisionControl { kind: other }),
        }
    }
}

/// A Darcs workspace as the snapshot engine sees it: each path, relative to
/// the repository root, mapped to what is stored there.
pub type Tree = Map<Seq<char>, nat>;

/// What a snapshot of `ws` within `scope` holds.
pub open spec fn snapshot_of(ws: Tree, scope: Option<Seq<char>>) -> Tree {
    ws.restrict(Set::new(|p: Seq<char>| copied(p, scope)))
}

/// A restore of a snapshot of `scope` removes `p` first: within the scope, or
/// anything but Darcs's own data for the whole repository.
pub open spec fn cleared(p: Seq<char>, scope: Option<Seq<char>>) -> bool {
    match scope {
        None => !in_metadata(p),
        Some(_) => in_scope(p, scope),
    }
}

/// `ws` after restoring the snapshot `snap` of `scope`: what the clearing
/// leaves, with the snapshot's files copied back over it.
pub open spec fn restored(ws: Tree, snap: Tree, scope: Option<Seq<char>>) -> Tree {
    ws.restrict(Set::new(|p: Seq<char>| !cleared(p, scope))).union_prefer_right(snap)
}

/// The empty path has no components.
pub proof fn lemma_empty_path_has_no_components()
    ensures
        components(Seq::<char>::empty()).len() == 0,
{
    let e = Seq::<char>::empty();
    assert(crate::text::split_on(e, '/') == seq![e]);
    reveal_with_fuel(Seq::filter, 2);
    assert(seq![e].drop_last() =~= Seq::<Seq<char>>::empty());
    assert(seq![e].filter(|x: Seq<char>| crate::paths::is_named(x)) =~= Seq::<
        Seq<char>,
    >::empty());
}

/// A snapshot of a subdirectory, taken and then restored after changes made
/// only within that subdirectory, gives back the workspace as it was: files
/// outside the scope are untouched, files inside hold their earlier content.
pub proof fn lemma_scoped_round_trip(ws0: Tree, ws1: Tree, scope: Seq<char>)
    requires
        components(scope).len() > 0,
        components(scope)[0] != "_darcs"@,
        forall|p: Seq<char>|
            !#[trigger] in_scope(p, Some(scope)) ==> (ws1.contains_key(p) == ws0.contains_key(p)
                && (ws0.contains_key(p) ==> ws1[p] == ws0[p])),
    ensures
        restored(ws1, snapshot_of(ws0, Some(scope)), Some(scope)) == ws0,
{
    let snap = snapshot_of(ws0, Some(scope));
    let r = restored(ws1, snap, Some(scope));
    lemma_empty_path_has_no_components();
    let keep = Set::new(|p: Seq<char>| !cleared(p, Some(scope)));
    let picked = Set::new(|p: Seq<char>| copied(p, Some(scope)));
    assert forall|p: Seq<char>| #[trigger] r.contains_key(p) == ws0.contains_key(p) && (
    r.contains_key(p) ==> r[p] == ws0[p]) by {
        if in_scope(p, Some(scope)) {
            assert(crate::paths::is_prefix_of(components(scope), components(p)));
            assert(components(p).subrange(0, components(scope).len() as int)[0] == components(
                p,
            )[0]);
            assert(components(p)[0] == components(scope)[0]);
            if p.len() == 0 {
                assert(p =~= Seq::<char>::empty());
            }
            assert(copied(p, Some(scope)));
            assert(!keep.contains(p));
            assert(picked.contains(p));
            assert(snap.contains_key(p) == ws0.contains_key(p));
            assert(!ws1.restrict(keep).contains_key(p));
            assert(r.contains_key(p) == snap.contains_key(p));
            if snap.contains_key(p) {
                assert(r[p] == snap[p]);
                assert(snap[p] == ws0[p]);
            }
        } else {
            assert(keep.contains(p));
            assert(!picked.contains(p));
            assert(!snap.contains_key(p));
            assert(ws1.contains_key(p) == ws0.contains_key(p));
            assert(ws1.restrict(keep).contains_key(p) == ws1.contains_key(p));
            assert(r.contains_key(p) == ws1.contains_key(p));
            if ws1.contains_key(p) {
                assert(r[p] == ws1.restrict(keep)[p]);
                assert(ws1[p] == ws0[p]);
            }
        }
    }
    assert(r =~= ws0);
}

/// Restoring the same snapshot twice in a row leaves the workspace as the
/// first restore left it.
pub proof fn lemma_restore_idempotent(ws: Tree, source: Tree, scope: Option<Seq<char>>)
    ensures
        restored(
            restored(ws, snapshot_of(source, scope), scope),
            snapshot_of(source, scope),
            scope,
        ) == restored(ws, snapshot_of(source, scope), scope),
{
    let snap = snapshot_of(source, scope);
    let once = restored(ws, snap, scope);
    let twice = restored(once, snap, scope);
    assert forall|p: Seq<char>| snap.contains_key(p) implies cleared(p, scope) by {}
    assert(twice =~= once);
}

/// The entries that [`crate::darcs_snapshots::copy_selection`] marks, over a
/// walk that lists every path of `ws`, are exactly what the snapshot of `ws`
/// holds.
pub proof fn lemma_selection_is_snapshot(
    ws: Tree,
    scope: Option<Seq<char>>,
    entries: Seq<Seq<char>>,
    selected: Seq<bool>,
)
    requires
        selected.len() == entries.len(),
        forall|k: int| 0 <= k < entries.len() ==> selected[k] == copied(entries[k], scope),
        forall|p: Seq<char>| ws.contains_key(p) <==> entries.contains(p),
    ensures
        forall|p: Seq<char>|
            snapshot_of(ws, scope).contains_key(p) <==> exists|k: int|
                0 <= k < entries.len() && entries[k] == p && selected[k],
{
    assert forall|p: Seq<char>|
        snapshot_of(ws, scope).contains_key(p) <==> exists|k: int|
            0 <= k < entries.len() && entries[k] == p && selected[k] by {
        if snapshot_of(ws, scope).contains_key(p) {
            assert(entries.contains(p));
            let k = choose|k: int| 0 <= k < entries.len() && entries[k] == p;
            assert(selected[k]);
        }
        if exists|k: int| 0 <= k < entries.len() && entries[k] == p && selected[k] {
            let k = choose|k: int| 0 <= k < entries.len() && entries[k] == p && selected[k];
            assert(entries.contains(p));
        }
    }
}

/// A restore of the whole repository clears a path exactly when the
/// top-level entry it lies in is among those that
/// [`crate::darcs_snapshots::clear_targets`] removes.
pub proof fn lemma_whole_clear_is_plan(p: Seq<char>, top: Seq<Seq<char>>, target_exists: bool)
    requires
        components(p).len() > 0,
        top.contains(components(p)[0]),
    ensures
        cleared(p, None) == cleared_entries(None, target_exists, top).contains(components(p)[0]),
{
    let first = components(p)[0];
    let pred = |n: Seq<char>| n != metadata_dir();
    let kept = top.filter(pred);
    top.filter_lemma(pred);
    if first != metadata_dir() {
        let i = choose|i: int| 0 <= i < top.len() && top[i] == first;
        assert(pred(top[i]));
        assert(kept.contains(first));
    } else {
        assert forall|i: int| 0 <= i < kept.len() implies kept[i] != first by {
            assert(pred(kept[i]));
        }
    }
}

/// A restore of a scope clears a path exactly when it lies at or below the
/// one target that [`crate::darcs_snapshots::clear_targets`] removes.
pub proof fn lemma_scoped_clear_is_plan(p: Seq<char>, scope: Seq<char>, top: Seq<Seq<char>>)
    ensures
        cleared_entries(Some(scope), true, top) == seq![scope],
        cleared(p, Some(scope)) == crate::paths::path_starts_with(p, scope),
{
}

} // verus!
