use revision_control::command::CommandOutput;
use revision_control::remote_diff::listed_untracked;
use revision_control::remote_diff::remote_diff;
use revision_control::remote_diff::tracked_diff_command;
use revision_control::remote_diff::untracked_diff_command;
use revision_control::remote_diff::untracked_files;
use revision_control::remote_diff::workspace_git_diff;
use revision_control::remote_diff::RunFailure;
use revision_control::remote_diff::WorkspaceDiffError;

fn out(code: i32, stdout: &str) -> CommandOutput {
    CommandOutput { code: Some(code), stdout: stdout.as_bytes().to_vec(), stderr: Vec::new() }
}

const A_DIFF: &str = "diff --git a/a.txt b/a.txt\n--- a/a.txt\n+++ b/a.txt\n@@ -1 +1 @@\n-v1\n+v2\n";
const B_DIFF: &str = "diff --git a/b.txt b/b.txt\nnew file mode 100644\n--- /dev/null\n+++ b/b.txt\n@@ -0,0 +1 @@\n+new\n";

#[test]
fn diff_to_remote_shows_edit_then_untracked_file() {
    let files = untracked_files(Some(out(0, "b.txt\n"))).expect("listing");
    assert_eq!(files, vec!["b.txt".to_string()]);
    assert_eq!(
        untracked_diff_command("b.txt"),
        vec!["diff", "--no-textconv", "--no-ext-diff", "--binary", "--no-index", "--", "/dev/null", "b.txt"]
    );
    let d = remote_diff(
        Some("v1sha".to_string()),
        Some(out(1, A_DIFF)),
        Some(out(0, "b.txt\n")),
        &vec![Some(out(1, B_DIFF))],
    )
    .expect("a diff");
    assert_eq!(d.sha, "v1sha");
    assert_eq!(d.diff, format!("{A_DIFF}{B_DIFF}"));
}

#[test]
fn no_shared_commit_means_no_diff() {
    assert!(remote_diff(None, Some(out(0, "")), Some(out(0, "")), &vec![]).is_none());
}

#[test]
fn failed_tracked_diff_means_no_diff() {
    assert!(remote_diff(Some("x".to_string()), Some(out(2, "")), None, &vec![]).is_none());
    assert!(remote_diff(Some("x".to_string()), None, None, &vec![]).is_none());
}

#[test]
fn failed_untracked_file_is_left_out() {
    let d = remote_diff(
        Some("s".to_string()),
        Some(out(0, "")),
        Some(out(0, "x\ny\n")),
        &vec![Some(out(2, "junk")), None, Some(out(1, B_DIFF))],
    )
    .expect("a diff");
    assert_eq!(d.diff, B_DIFF);
}

#[test]
fn unreadable_listing_abandons_diff() {
    let bad = CommandOutput { code: Some(0), stdout: vec![0xc3, 0x28], stderr: Vec::new() };
    assert!(untracked_files(Some(bad)).is_none());
    assert_eq!(untracked_files(Some(out(1, "x"))), Some(Vec::new()));
}

#[test]
fn tracked_command_names_commit() {
    assert_eq!(tracked_diff_command("abc"), vec!["diff", "--no-textconv", "--no-ext-diff", "abc"]);
}

#[test]
fn workspace_diff_joins_blocks() {
    let r = workspace_git_diff(Ok(out(0, "T")), Ok(out(0, " a \n\nb\n")), &vec![
        Ok(out(1, "A")),
        Err(RunFailure::NotFound),
        Ok(out(0, "B")),
    ]);
    assert_eq!(r.ok(), Some("TAB".to_string()));
    assert_eq!(listed_untracked(" a \n\nb\n"), vec!["a".to_string(), "b".to_string()]);
}

#[test]
fn workspace_diff_fails_on_bad_status() {
    let r = workspace_git_diff(Ok(out(0, "T")), Ok(out(0, "a\n")), &vec![Ok(out(2, ""))]);
    assert!(matches!(r, Err(WorkspaceDiffError::Status { code: Some(2) })));
    let r = workspace_git_diff(Err(RunFailure::Other), Ok(out(0, "")), &vec![]);
    assert!(matches!(r, Err(WorkspaceDiffError::Spawn { not_found: false })));
}
