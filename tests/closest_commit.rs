use revision_control::ancestry::branch_ancestry;
use revision_control::ancestry::parse_remotes;
use revision_control::ancestry::DefaultBranchSearch;
use revision_control::ancestry::RemoteListing;
use revision_control::closest::find_closest_commit;
use revision_control::closest::BranchOutcome;
use revision_control::closest::BranchProbe;
use revision_control::command::CommandOutput;

fn ok(stdout: &str) -> Option<CommandOutput> {
    Some(CommandOutput { code: Some(0), stdout: stdout.as_bytes().to_vec(), stderr: Vec::new() })
}

fn failed(code: i32) -> Option<CommandOutput> {
    Some(CommandOutput { code: Some(code), stdout: Vec::new(), stderr: b"fatal".to_vec() })
}

fn eligible(sha: &str, distance: usize) -> BranchOutcome {
    BranchOutcome::Eligible { sha: sha.to_string(), distance }
}

fn strings(items: &[&str]) -> Vec<String> {
    items.iter().map(|s| s.to_string()).collect()
}

fn run_probe(branch: &str, remotes: &[&str], answers: Vec<Option<CommandOutput>>) -> (Vec<Vec<String>>, BranchOutcome) {
    let mut probe = BranchProbe::new(branch, &strings(remotes));
    let mut commands = Vec::new();
    let mut answers = answers.into_iter();
    while let Some(args) = probe.next_command() {
        commands.push(args);
        probe = probe.advance(answers.next().expect("an answer for each command"));
    }
    (commands, probe.into_outcome().expect("finished"))
}

#[test]
fn no_remote_means_no_commit() {
    let (commands, outcome) = run_probe("main", &[], vec![]);
    assert!(commands.is_empty());
    assert!(matches!(outcome, BranchOutcome::Ineligible));
    let outcomes = vec![outcome, BranchOutcome::Ineligible];
    assert_eq!(find_closest_commit(&outcomes), None);
}

#[test]
fn single_eligible_branch_wins_wherever_it_stands() {
    for pos in 0..3 {
        let mut outcomes = vec![BranchOutcome::Ineligible, BranchOutcome::Ineligible, BranchOutcome::Ineligible];
        outcomes[pos] = eligible("abc123", 7);
        assert_eq!(find_closest_commit(&outcomes), Some("abc123".to_string()));
    }
}

#[test]
fn nearer_candidate_wins_and_ties_go_to_the_first() {
    let outcomes = vec![eligible("far", 3), eligible("near", 1)];
    assert_eq!(find_closest_commit(&outcomes), Some("near".to_string()));
    let tied = vec![eligible("first", 2), eligible("second", 2)];
    assert_eq!(find_closest_commit(&tied), Some("first".to_string()));
}

#[test]
fn unknown_probe_gives_no_answer() {
    let outcomes = vec![eligible("a", 1), BranchOutcome::Unknown];
    assert_eq!(find_closest_commit(&outcomes), None);
}

#[test]
fn probe_finds_remote_ref_and_counts_locally() {
    let (commands, outcome) = run_probe(
        "feature",
        &["origin", "upstream"],
        vec![failed(1), ok("deadbeef\n"), ok("4\n")],
    );
    assert_eq!(commands[0], strings(&["rev-parse", "--verify", "--quiet", "refs/remotes/origin/feature"]));
    assert_eq!(commands[1], strings(&["rev-parse", "--verify", "--quiet", "refs/remotes/upstream/feature"]));
    assert_eq!(commands[2], strings(&["rev-list", "--count", "feature..HEAD"]));
    match outcome {
        BranchOutcome::Eligible { sha, distance } => {
            assert_eq!(sha, "deadbeef");
            assert_eq!(distance, 4);
        }
        _ => panic!("expected an eligible branch"),
    }
}

#[test]
fn probe_falls_back_to_remote_count() {
    let (commands, outcome) = run_probe("topic", &["origin"], vec![ok("cafe\n"), failed(128), ok(" 2 \n")]);
    assert_eq!(commands[2], strings(&["rev-list", "--count", "refs/remotes/origin/topic..HEAD"]));
    assert!(matches!(outcome, BranchOutcome::Eligible { distance: 2, .. }));
}

#[test]
fn probe_that_cannot_run_is_unknown() {
    let (_, outcome) = run_probe("main", &["origin"], vec![None]);
    assert!(matches!(outcome, BranchOutcome::Unknown));
}

#[test]
fn probe_with_unreadable_count_is_ineligible() {
    let (_, outcome) = run_probe("main", &["origin"], vec![ok("abc\n"), ok("many\n")]);
    assert!(matches!(outcome, BranchOutcome::Ineligible));
    let bad = Some(CommandOutput { code: Some(0), stdout: vec![0xff, 0xfe], stderr: Vec::new() });
    let (_, outcome) = run_probe("main", &["origin"], vec![bad]);
    assert!(matches!(outcome, BranchOutcome::Ineligible));
}

#[test]
fn remotes_put_origin_first() {
    let remotes = parse_remotes(ok("upstream\nfork\norigin\n")).expect("remotes");
    assert_eq!(remotes, strings(&["origin", "upstream", "fork"]));
    assert_eq!(parse_remotes(failed(1)), None);
}

#[test]
fn ancestry_lists_each_branch_once_in_order() {
    let listings = vec![
        RemoteListing { remote: "origin".to_string(), listing: ok("origin/main\norigin/feature\norigin/HEAD\n") },
        RemoteListing { remote: "upstream".to_string(), listing: ok("upstream/feature\nupstream/release\n") },
    ];
    let list = branch_ancestry(ok("feature\n"), Some("main".to_string()), &listings);
    assert_eq!(list, strings(&["feature", "main", "HEAD", "release"]));
}

#[test]
fn ancestry_skips_detached_head() {
    let list = branch_ancestry(ok("HEAD\n"), Some("main".to_string()), &vec![]);
    assert_eq!(list, strings(&["main"]));
    let empty = branch_ancestry(None, None, &vec![]);
    assert!(empty.is_empty());
}

fn run_default_search(remotes: &[&str], answers: Vec<Option<CommandOutput>>) -> (Vec<Vec<String>>, Option<String>) {
    let mut search = DefaultBranchSearch::new(&strings(remotes));
    let mut commands = Vec::new();
    let mut answers = answers.into_iter();
    while let Some(args) = search.next_command() {
        commands.push(args);
        search = search.advance(answers.next().expect("an answer for each command"));
    }
    (commands, search.into_result().expect("finished"))
}

#[test]
fn default_branch_from_symbolic_ref() {
    let (commands, branch) = run_default_search(&["origin"], vec![ok("refs/remotes/origin/trunk\n")]);
    assert_eq!(commands[0], strings(&["symbolic-ref", "--quiet", "refs/remotes/origin/HEAD"]));
    assert_eq!(branch, Some("trunk".to_string()));
}

#[test]
fn default_branch_from_remote_show() {
    let show = "* remote origin\n  Fetch URL: x\n  HEAD branch: develop\n";
    let (commands, branch) = run_default_search(&["origin"], vec![failed(1), ok(show)]);
    assert_eq!(commands[1], strings(&["remote", "show", "origin"]));
    assert_eq!(branch, Some("develop".to_string()));
}

#[test]
fn default_branch_falls_back_to_local_master() {
    let (commands, branch) = run_default_search(&[], vec![failed(1), ok("abc\n")]);
    assert_eq!(commands[0], strings(&["rev-parse", "--verify", "--quiet", "refs/heads/main"]));
    assert_eq!(commands[1], strings(&["rev-parse", "--verify", "--quiet", "refs/heads/master"]));
    assert_eq!(branch, Some("master".to_string()));
    let (_, none) = run_default_search(&[], vec![failed(1), failed(1)]);
    assert_eq!(none, None);
}
