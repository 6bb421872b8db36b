use revision_control::backend::darcs_cli_available;
use revision_control::backend::DetectedRevisionControl;
use revision_control::backend::RevisionControlCapabilities;
use revision_control::backend::RevisionControlKind;
use revision_control::command::CommandOutput;
use revision_control::darcs_snapshots::clear_targets;
use revision_control::darcs_snapshots::command_status;
use revision_control::darcs_snapshots::copy_selection;
use revision_control::darcs_snapshots::direct_scope;
use revision_control::darcs_snapshots::record_dry_run_args;
use revision_control::darcs_snapshots::scope_within_repo;
use revision_control::darcs_snapshots::should_include_entry;
use revision_control::darcs_snapshots::snapshot_id;
use revision_control::errors::DarcsSnapshotError;
use revision_control::errors::GitToolingError;
use revision_control::errors::SnapshotError;
use revision_control::ghost_commits::commit_tree_args;
use revision_control::ghost_commits::git_output;
use revision_control::ghost_commits::index_command_list;
use revision_control::ghost_commits::restore_command_list;
use revision_control::paths::within_scope;
use revision_control::snapshot::GhostCommit;
use revision_control::snapshot::RepoSnapshotManager;
use revision_control::snapshot::Snapshot;

fn backend(kind: RevisionControlKind, caps: RevisionControlCapabilities) -> DetectedRevisionControl {
    DetectedRevisionControl { kind, root: "/tmp".to_string(), capabilities: caps, tooling_error: None }
}

#[test]
fn manager_reports_missing_tool_for_darcs_without_cli() {
    let dummy = backend(RevisionControlKind::Darcs, RevisionControlCapabilities::new(false, false));
    let manager = RepoSnapshotManager::new(&dummy, "/tmp".to_string());
    let err = manager
        .create_route(darcs_cli_available())
        .expect_err("expected unsupported backend error");
    match err {
        SnapshotError::MissingTool { tool } => {
            assert_eq!(tool, "darcs");
        }
        other => panic!("unexpected error: {other:?}"),
    }
}

#[test]
fn missing_tool_is_reported_first() {
    let darcs = backend(RevisionControlKind::Darcs, RevisionControlCapabilities::new(true, true));
    let manager = RepoSnapshotManager::new(&darcs, "/store".to_string());
    assert!(matches!(manager.create_route(false), Err(SnapshotError::MissingTool { .. })));
    assert!(matches!(manager.create_route(true), Ok(RevisionControlKind::Darcs)));
}

#[test]
fn mismatched_snapshot_is_rejected() {
    let git = backend(RevisionControlKind::Git, RevisionControlCapabilities::new(true, true));
    let manager = RepoSnapshotManager::new(&git, "/store".to_string()).with_storage_root("/other".to_string());
    assert_eq!(manager.storage_root(), "/other");
    let storage = tempfile::tempdir().unwrap();
    let path = storage.path().to_string_lossy().into_owned();
    let darcs_snapshot = Snapshot::Darcs(revision_control::snapshot::DarcsSnapshot::new(
        "snap-1".to_string(),
        None,
        path,
        storage,
    ));
    match manager.restore_route(&darcs_snapshot, true) {
        Err(SnapshotError::MismatchedSnapshot { expected, actual }) => {
            assert_eq!(expected, RevisionControlKind::Git);
            assert_eq!(actual, RevisionControlKind::Darcs);
        }
        _ => panic!("expected a mismatch"),
    }
    let git_snapshot = Snapshot::Git(GhostCommit::new("0123456789abcdef".to_string(), None));
    assert!(matches!(manager.restore_route(&git_snapshot, false), Ok(RevisionControlKind::Git)));
    assert_eq!(git_snapshot.short_id(), "01234567");
    assert!(manager.restore_to_commit_route().is_ok());
}

#[test]
fn unsupported_backend_fails_fast() {
    let darcs = backend(RevisionControlKind::Darcs, RevisionControlCapabilities::new(true, true));
    let manager = RepoSnapshotManager::new(&darcs, "/store".to_string());
    assert!(matches!(
        manager.restore_to_commit_route(),
        Err(SnapshotError::UnsupportedRevisionControl { kind: RevisionControlKind::Darcs })
    ));
    let no_snapshots = backend(RevisionControlKind::Git, RevisionControlCapabilities::new(true, false));
    let manager = RepoSnapshotManager::new(&no_snapshots, "/store".to_string());
    assert!(matches!(manager.create_route(true), Err(SnapshotError::UnsupportedRevisionControl { .. })));
}

#[test]
fn scope_outside_repository_names_both_paths() {
    assert_eq!(direct_scope("/work/R", "/work/R/../outside"), None);
    match scope_within_repo("/work/R", "/work/R/../outside", "/work/R", "/work/outside") {
        Err(DarcsSnapshotError::PathOutsideRepository { path, root }) => {
            assert_eq!(path, "/work/R/../outside");
            assert_eq!(root, "/work/R");
        }
        _ => panic!("expected the scope to be outside"),
    }
    let err = SnapshotError::from_darcs(DarcsSnapshotError::PathOutsideRepository {
        path: "p".to_string(),
        root: "r".to_string(),
    });
    assert!(matches!(err, SnapshotError::Darcs(DarcsSnapshotError::PathOutsideRepository { .. })));
}

#[test]
fn scope_inside_repository() {
    assert_eq!(direct_scope("/work/R", "/work/R"), Some(None));
    assert_eq!(direct_scope("/work/R/", "/work/R/./sub//dir"), Some(Some("sub/dir".to_string())));
    assert_eq!(direct_scope("/work/R", "/elsewhere"), None);
    assert_eq!(
        scope_within_repo("/link", "/link/sub", "/real", "/real/sub").ok(),
        Some(Some("sub".to_string()))
    );
}

#[test]
fn error_conversions() {
    assert!(matches!(SnapshotError::from_darcs(DarcsSnapshotError::CliMissing), SnapshotError::MissingTool { ref tool } if tool == "darcs"));
    assert!(matches!(
        SnapshotError::from_git(GitToolingError::NotAGitRepository { path: "/x".to_string() }),
        SnapshotError::NotARepository { ref path } if path == "/x"
    ));
    assert!(matches!(SnapshotError::from_git(GitToolingError::PathPrefix), SnapshotError::Git(GitToolingError::PathPrefix)));
}

#[test]
fn copy_selection_skips_metadata_and_other_scopes() {
    let entries: Vec<String> = ["", "_darcs", "_darcs/patches", "src", "src/a.rs", "docs/b.md"]
        .iter()
        .map(|s| s.to_string())
        .collect();
    assert_eq!(copy_selection(&entries, None), vec![false, false, false, true, true, true]);
    assert_eq!(copy_selection(&entries, Some("src")), vec![false, false, false, true, true, false]);
    assert!(within_scope("src/a.rs", Some("src")));
    assert!(!within_scope("srcx/a.rs", Some("src")));
    assert!(!should_include_entry("_darcs", true));
    assert!(should_include_entry("_darcs", false));
}

#[test]
fn clear_targets_spare_metadata() {
    let top: Vec<String> = ["a", "_darcs", "b"].iter().map(|s| s.to_string()).collect();
    assert_eq!(clear_targets(None, false, &top), vec!["a".to_string(), "b".to_string()]);
    assert_eq!(clear_targets(Some("sub"), true, &top), vec!["sub".to_string()]);
    assert!(clear_targets(Some("sub"), false, &top).is_empty());
}

#[test]
fn command_status_reports_failure() {
    let args = record_dry_run_args();
    assert_eq!(args[0], "record");
    let out = CommandOutput { code: Some(2), stdout: Vec::new(), stderr: b"conflict".to_vec() };
    match command_status(&vec!["revert".to_string(), "--all".to_string()], Ok(out)) {
        Err(DarcsSnapshotError::CommandFailed { command, status, stderr }) => {
            assert_eq!(command, "darcs revert --all");
            assert_eq!(status, Some(2));
            assert_eq!(stderr, "conflict");
        }
        _ => panic!("expected a failure"),
    }
    let ok = CommandOutput { code: Some(0), stdout: Vec::new(), stderr: Vec::new() };
    assert!(command_status(&args, Ok(ok)).is_ok());
    assert!(matches!(command_status(&args, Err("gone".to_string())), Err(DarcsSnapshotError::Io { .. })));
}

#[test]
fn snapshot_ids() {
    assert_eq!(snapshot_id(Some("codex-darcs-snapshot-x1".to_string())), "codex-darcs-snapshot-x1");
    assert_eq!(snapshot_id(None), "codex-darcs-snapshot");
    let commit = GhostCommit::new("abc".to_string(), Some("def".to_string()));
    assert_eq!(commit.id(), "abc");
    assert_eq!(commit.parent(), Some("def"));
    assert_eq!(Snapshot::Git(commit).short_id(), "abc");
}

#[test]
fn ghost_commit_commands() {
    assert_eq!(index_command_list(true).len(), 3);
    assert_eq!(index_command_list(false)[0], vec!["add", "--all"]);
    assert_eq!(commit_tree_args("t1", Some("p1")), vec!["commit-tree", "t1", "-m", "codex snapshot", "-p", "p1"]);
    assert_eq!(restore_command_list("c1", false)[0], vec!["read-tree", "--reset", "-u", "c1"]);
    assert_eq!(restore_command_list("c1", true).len(), 3);
    let args = vec!["write-tree".to_string()];
    let ok = CommandOutput { code: Some(0), stdout: b" abc \n".to_vec(), stderr: Vec::new() };
    assert_eq!(git_output(&args, Ok(ok)).ok(), Some("abc".to_string()));
    let bad = CommandOutput { code: Some(0), stdout: vec![0xff], stderr: Vec::new() };
    assert!(matches!(git_output(&args, Ok(bad)), Err(GitToolingError::GitOutputUtf8 { .. })));
    let failed = CommandOutput { code: Some(1), stdout: Vec::new(), stderr: b"no".to_vec() };
    match git_output(&args, Ok(failed)) {
        Err(GitToolingError::GitCommand { command, status, stderr }) => {
            assert_eq!(command, "git write-tree");
            assert_eq!(status, Some(1));
            assert_eq!(stderr, "no");
        }
        _ => panic!("expected a failure"),
    }
}
