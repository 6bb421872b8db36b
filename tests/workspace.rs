use revision_control::backend::detect_revision_control;
use revision_control::backend::first_marked;
use revision_control::backend::git_common_dir;
use revision_control::backend::missing_darcs_message;
use revision_control::backend::resolve_revision_control_project_for_trust;
use revision_control::backend::DetectedRevisionControl;
use revision_control::backend::RevisionControlCapabilities;
use revision_control::backend::RevisionControlKind;
use revision_control::command::format_command;
use revision_control::command::CommandOutput;
use revision_control::git_info::collect_git_info;
use revision_control::git_info::current_branch_name;
use revision_control::git_info::decimal;
use revision_control::git_info::local_git_branches;
use revision_control::git_info::log_args;
use revision_control::git_info::recent_commits;
use revision_control::paths::ancestors;
use revision_control::paths::join_path;
use revision_control::paths::parent_path;
use revision_control::text::lines;
use revision_control::text::parse_i64;
use revision_control::text::parse_usize;
use revision_control::text::trim;

fn ok(stdout: &str) -> Option<CommandOutput> {
    Some(CommandOutput { code: Some(0), stdout: stdout.as_bytes().to_vec(), stderr: Vec::new() })
}

fn marker_flags(dirs: &[String], marker: &str) -> Vec<bool> {
    dirs.iter().map(|d| std::path::Path::new(d).join(marker).exists()).collect()
}

#[test]
fn git_returns_none_for_non_repo() {
    let dir = tempfile::tempdir().unwrap();
    let dirs = ancestors(&dir.path().to_string_lossy());
    assert!(first_marked(&dirs, &marker_flags(&dirs, ".git")).is_none());
}

#[test]
fn darcs_returns_none_for_non_repo() {
    let dir = tempfile::tempdir().unwrap();
    let dirs = ancestors(&dir.path().to_string_lossy());
    assert!(first_marked(&dirs, &marker_flags(&dirs, "_darcs")).is_none());
}

#[test]
fn nested_directory_finds_marked_ancestor() {
    let dirs = ancestors("/a/b/c");
    assert_eq!(dirs, vec!["/a/b/c", "/a/b", "/a", "/"]);
    assert_eq!(first_marked(&dirs, &vec![false, true, true, false]), Some("/a/b".to_string()));
}

fn strings(items: &[&str]) -> Vec<String> {
    items.iter().map(|s| s.to_string()).collect()
}

#[test]
fn returns_none_when_no_repo_found() {
    let dir = tempfile::tempdir().unwrap();
    let dirs = ancestors(&dir.path().to_string_lossy());
    let git = marker_flags(&dirs, ".git");
    let darcs = marker_flags(&dirs, "_darcs");
    assert!(detect_revision_control(&dirs, &git, &darcs, true).is_none());
}

#[test]
fn detects_git_repository() {
    let dir = tempfile::tempdir().unwrap();
    let _marker = tempfile::Builder::new().prefix(".git").rand_bytes(0).tempdir_in(dir.path()).unwrap();
    assert!(dir.path().join(".git").exists());
    let dirs = ancestors(&dir.path().to_string_lossy());
    let d = detect_revision_control(&dirs, &marker_flags(&dirs, ".git"), &marker_flags(&dirs, "_darcs"), false)
        .expect("a repository");
    assert_eq!(d.kind, RevisionControlKind::Git);
    assert_eq!(d.root, dir.path().to_string_lossy());
    assert_eq!(d.capabilities, RevisionControlCapabilities::new(true, true));
    assert!(d.tooling_error.is_none());
    assert_eq!(d.kind.display_name(), "Git");
}

#[test]
fn nearer_darcs_marker_wins_over_farther_git() {
    let dirs = strings(&["/a/b/c", "/a/b", "/a", "/"]);
    let git = vec![false, false, true, false];
    let darcs = vec![false, true, false, false];
    let d = detect_revision_control(&dirs, &git, &darcs, true).unwrap();
    assert_eq!(d.kind, RevisionControlKind::Darcs);
    assert_eq!(d.root, "/a/b");
    let d = detect_revision_control(&dirs, &vec![false, true, false, false], &darcs, true).unwrap();
    assert_eq!(d.kind, RevisionControlKind::Git);
    assert_eq!(d.root, "/a/b");
}

#[test]
fn detects_darcs_with_tooling_error() {
    let dirs = strings(&["/d/x", "/d", "/"]);
    let none = vec![false, false, false];
    let darcs = vec![false, true, false];
    let d = detect_revision_control(&dirs, &none, &darcs, false).unwrap();
    assert_eq!(d.kind, RevisionControlKind::Darcs);
    assert_eq!(d.root, "/d");
    assert_eq!(d.tooling_error, missing_darcs_message(false));
    assert!(d.tooling_error.is_some());
    let fine = detect_revision_control(&dirs, &none, &darcs, true).unwrap();
    assert!(fine.tooling_error.is_none());
}

#[test]
fn resolve_trust_root_for_darcs_repo() {
    let d = DetectedRevisionControl::new(RevisionControlKind::Darcs, "/d".to_string());
    assert_eq!(resolve_revision_control_project_for_trust(&d, None), Some("/d".to_string()));
    let g = DetectedRevisionControl::new(RevisionControlKind::Git, "/g".to_string());
    assert_eq!(resolve_revision_control_project_for_trust(&g, Some("/main".to_string())), Some("/main".to_string()));
}

#[test]
fn git_common_dir_is_taken_relative_to_base() {
    assert_eq!(git_common_dir("/w/sub", ok(".git\n")), Some("/w/sub/.git".to_string()));
    assert_eq!(git_common_dir("/w/sub", ok("/w/.git\n")), Some("/w/.git".to_string()));
    assert_eq!(parent_path("/w/.git"), Some("/w".to_string()));
    assert_eq!(parent_path("/"), None);
    assert_eq!(join_path("/w/", "x"), "/w/x");
}

#[test]
fn collect_git_info_reads_fields() {
    let info = collect_git_info(RevisionControlKind::Git, ok(".git"), ok("abc123\n"), ok("feature\n"), ok("https://example.com/test.git\n"))
        .expect("git info should be collected");
    assert_eq!(info.commit_hash.as_deref(), Some("abc123"));
    assert_eq!(info.branch.as_deref(), Some("feature"));
    assert_eq!(info.repository_url.as_deref(), Some("https://example.com/test.git"));
    let detached = collect_git_info(RevisionControlKind::Git, ok(".git"), ok("abc\n"), ok("HEAD\n"), None).unwrap();
    assert!(detached.branch.is_none());
    assert!(detached.repository_url.is_none());
}

#[test]
fn collect_git_info_returns_none_for_non_git_backend() {
    assert!(collect_git_info(RevisionControlKind::Darcs, ok(".git"), None, None, None).is_none());
    let failed = Some(CommandOutput { code: Some(128), stdout: Vec::new(), stderr: Vec::new() });
    assert!(collect_git_info(RevisionControlKind::Git, failed, None, None, None).is_none());
}

#[test]
fn commit_log_is_parsed() {
    let log = "aaa\u{1f}1700000000\u{1f}First\nbbb\u{1f}oops\u{1f} Second \n\u{1f}1\u{1f}x\nccc\u{1f}-5\n";
    let entries = recent_commits(ok(".git"), ok(log));
    assert_eq!(entries.len(), 3);
    assert_eq!(entries[0].sha, "aaa");
    assert_eq!(entries[0].timestamp, 1_700_000_000);
    assert_eq!(entries[0].subject, "First");
    assert_eq!(entries[1].timestamp, 0);
    assert_eq!(entries[1].subject, "Second");
    assert_eq!(entries[2].timestamp, -5);
    assert_eq!(entries[2].subject, "");
    assert!(recent_commits(None, ok(log)).is_empty());
    assert_eq!(log_args(0)[2], "1");
    assert_eq!(log_args(25)[2], "25");
    assert_eq!(decimal(1234567), "1234567");
}

#[test]
fn local_branches_are_sorted_with_default_first() {
    let listed = ok("  zeta\nmain\n\nalpha\n");
    assert_eq!(local_git_branches(listed.clone(), Some("main".to_string())), vec!["main", "alpha", "zeta"]);
    assert_eq!(local_git_branches(listed, None), vec!["alpha", "main", "zeta"]);
    assert!(local_git_branches(None, None).is_empty());
}

#[test]
fn current_branch_is_trimmed() {
    assert_eq!(current_branch_name(ok(" feature \n")), Some("feature".to_string()));
    assert_eq!(current_branch_name(ok("\n")), None);
}

#[test]
fn text_helpers() {
    assert_eq!(trim("\u{3000} a b \t\n"), "a b");
    assert_eq!(lines("a\r\nb\n\nc"), vec!["a", "b", "", "c"]);
    assert!(lines("").is_empty());
    assert_eq!(parse_usize("+42"), Some(42));
    assert_eq!(parse_usize("18446744073709551616"), None);
    assert_eq!(parse_usize("-1"), None);
    assert_eq!(parse_i64("-9223372036854775808"), Some(i64::MIN));
    assert_eq!(parse_i64("9223372036854775808"), None);
    assert_eq!(format_command("darcs", &vec!["record".to_string(), "--all".to_string()]), "darcs record --all");
}

#[test]
fn detects_nested_darcs_repository() {
    let dir = tempfile::tempdir().unwrap();
    let _marker = tempfile::Builder::new().prefix("_darcs").rand_bytes(0).tempdir_in(dir.path()).unwrap();
    let nested = tempfile::Builder::new().prefix("nested").rand_bytes(0).tempdir_in(dir.path()).unwrap();
    let dirs = ancestors(&nested.path().to_string_lossy());
    let root = first_marked(&dirs, &marker_flags(&dirs, "_darcs"));
    assert_eq!(root, Some(dir.path().to_string_lossy().into_owned()));
    let d = detect_revision_control(&dirs, &marker_flags(&dirs, ".git"), &marker_flags(&dirs, "_darcs"), true)
        .expect("a repository");
    assert_eq!(d.kind, RevisionControlKind::Darcs);
    assert_eq!(d.root, dir.path().to_string_lossy());
}
