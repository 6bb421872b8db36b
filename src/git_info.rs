//! Reading one-shot Git metadata: the commit and branch of HEAD, the origin's
//! URL, the latest commits, and the local branches.
use vstd::prelude::*;
use vstd::string::*;

use crate::ancestry::current_branch_of;
use crate::ancestry::move_to_front;
use crate::ancestry::moved_to_front;
use crate::ancestry::parse_current_branch;
use crate::backend::RevisionControlKind;
use crate::command::output_text;
use crate::command::success_text;
use crate::command::CommandOutput;
use crate::remote_diff::keep_non_empty;
use crate::remote_diff::non_empty;
use crate::text::decode_utf8_lossy;
use crate::text::lines;
use crate::text::lines_of;
use crate::text::opt_text;
use crate::text::parse_i64;
use crate::text::parsed_signed;
use crate::text::split_char;
use crate::text::split_on;
use crate::text::trim;
use crate::text::trimmed;
use crate::text::utf8_lossy_text;
use crate::text::views;

verus! {

/// Facts about a Git workspace.
pub struct GitInfo {
    pub commit_hash: Option<String>,
    pub branch: Option<String>,
    pub repository_url: Option<String>,
}

/// The trimmed output of a command that succeeded.
pub open spec fn trimmed_output(out: Option<CommandOutput>) -> Option<Seq<char>> {
    match success_text(out) {
        Some(t) => Some(trimmed(t)),
        None => None,
    }
}

fn read_trimmed(out: Option<CommandOutput>) -> (r: Option<String>)
    ensures
        opt_text(r) == trimmed_output(out),
{
    match output_text(out) {
        Some(t) => Some(String::from_str(trim(t.as_str()))),
        None => None,
    }
}

/// Collects the facts about a Git workspace from the outcomes of
/// `rev-parse --git-dir` (which says whether this is a repository at all),
/// `rev-parse HEAD`, `rev-parse --abbrev-ref HEAD` and `remote get-url
/// origin`. `None` for another backend, or outside a repository.
pub fn collect_git_info(
    kind: RevisionControlKind,
    git_dir: Option<CommandOutput>,
    head: Option<CommandOutput>,
    branch: Option<CommandOutput>,
    origin_url: Option<CommandOutput>,
) -> (r: Option<GitInfo>)
    ensures
        r is Some <==> (kind is Git && (git_dir matches Some(o) && o.succeeded())),
        r matches Some(info) ==> opt_text(info.commit_hash) == trimmed_output(head) && opt_text(
            info.branch,
        ) == current_branch_of(branch) && opt_text(info.repository_url) == trimmed_output(
            origin_url,
        ),
{
    if kind != RevisionControlKind::Git {
        return None;
    }
    let is_repo = match &git_dir {
        Some(o) => o.success(),
        None => false,
    };
    if !is_repo {
        return None;
    }
    Some(
        GitInfo {
            commit_hash: read_trimmed(head),
            branch: parse_current_branch(branch),
            repository_url: read_trimmed(origin_url),
        },
    )
}

/// A commit as the log lists it.
pub struct CommitLogEntry {
    pub sha: String,
    /// Seconds since the epoch of the commit time.
    pub timestamp: i64,
    /// The first line of the commit message.
    pub subject: String,
}

/// The separator between the fields of a log line.
pub open spec fn unit_separator() -> char {
    '\u{1f}'
}

/// The `i`th field of a log line, or nothing.
pub open spec fn field(parts: Seq<Seq<char>>, i: int) -> Seq<char> {
    if i < parts.len() {
        trimmed(parts[i])
    } else {
        Seq::empty()
    }
}

/// The entry that a log line gives: none when its hash or time is missing;
/// a time that does not read as a number counts as 0.
pub open spec fn log_entry_of(line: Seq<char>) -> Option<(Seq<char>, int, Seq<char>)> {
    let parts = split_on(line, unit_separator());
    let sha = field(parts, 0);
    let ts = field(parts, 1);
    if sha.len() == 0 || ts.len() == 0 {
        None
    } else {
        Some(
            (
                sha,
                match parsed_signed(ts) {
                    Some(v) => v,
                    None => 0,
                },
                field(parts, 2),
            ),
        )
    }
}

/// The entries that the lines `ls` give, in order.
pub open spec fn log_entries(ls: Seq<Seq<char>>) -> Seq<(Seq<char>, int, Seq<char>)>
    decreases ls.len(),
{
    if ls.len() == 0 {
        Seq::empty()
    } else {
        let before = log_entries(ls.drop_last());
        match log_entry_of(ls.last()) {
            Some(e) => before.push(e),
            None => before,
        }
    }
}

pub open spec fn entry_views(v: Seq<CommitLogEntry>) -> Seq<(Seq<char>, int, Seq<char>)> {
    v.map_values(|e: CommitLogEntry| (e.sha@, e.timestamp as int, e.subject@))
}

fn field_at(parts: &Vec<String>, i: usize) -> (r: String)
    ensures
        r@ == field(views(parts@), i as int),
{
    if i < parts.len() {
        String::from_str(trim(parts[i].as_str()))
    } else {
        String::new()
    }
}

fn log_entry(line: &str) -> (r: Option<CommitLogEntry>)
    ensures
        r matches Some(e) ==> log_entry_of(line@) == Some((e.sha@, e.timestamp as int, e.subject@)),
        r is None ==> log_entry_of(line@) is None,
{
    let parts = split_char(line, '\u{1f}');
    let sha = field_at(&parts, 0);
    let ts = field_at(&parts, 1);
    if sha.unicode_len() == 0 || ts.unicode_len() == 0 {
        return None;
    }
    let timestamp = match parse_i64(ts.as_str()) {
        Some(v) => v,
        None => 0,
    };
    let subject = field_at(&parts, 2);
    Some(CommitLogEntry { sha, timestamp, subject })
}

/// The arguments of the log of the latest `limit` commits (at least one),
/// one line each: hash, commit time and subject, separated by U+001F.
pub fn log_args(limit: usize) -> (r: Vec<String>)
    ensures
        views(r@) == seq![
            "log"@,
            "-n"@,
            decimal_text(if limit == 0 {
                1
            } else {
                limit as nat
            }),
            "--pretty=format:%H%x1f%ct%x1f%s"@,
        ],
{
    let n = if limit == 0 {
        1
    } else {
        limit
    };
    let r = vec![
        String::from_str("log"),
        String::from_str("-n"),
        decimal(n),
        String::from_str("--pretty=format:%H%x1f%ct%x1f%s"),
    ];
    assert(views(r@) =~= seq![
        "log"@,
        "-n"@,
        decimal_text(n as nat),
        "--pretty=format:%H%x1f%ct%x1f%s"@,
    ]);
    r
}

/// The decimal digit for `d`.
pub open spec fn digit_char(d: nat) -> char {
    if d == 0 {
        '0'
    } else if d == 1 {
        '1'
    } else if d == 2 {
        '2'
    } else if d == 3 {
        '3'
    } else if d == 4 {
        '4'
    } else if d == 5 {
        '5'
    } else if d == 6 {
        '6'
    } else if d == 7 {
        '7'
    } else if d == 8 {
        '8'
    } else {
        '9'
    }
}

/// `n` written in decimal.
pub open spec fn decimal_text(n: nat) -> Seq<char>
    decreases n,
{
    if n < 10 {
        seq![digit_char(n)]
    } else {
        decimal_text(n / 10) + seq![digit_char(n % 10)]
    }
}

fn digit_str(d: usize) -> (r: &'static str)
    requires
        d < 10,
    ensures
        r@ == seq![digit_char(d as nat)],
{
    proof {
        reveal_strlit("0");
        reveal_strlit("1");
        reveal_strlit("2");
        reveal_strlit("3");
        reveal_strlit("4");
        reveal_strlit("5");
        reveal_strlit("6");
        reveal_strlit("7");
        reveal_strlit("8");
        reveal_strlit("9");
    }
    let r = if d == 0 {
        "0"
    } else if d == 1 {
        "1"
    } else if d == 2 {
        "2"
    } else if d == 3 {
        "3"
    } else if d == 4 {
        "4"
    } else if d == 5 {
        "5"
    } else if d == 6 {
        "6"
    } else if d == 7 {
        "7"
    } else if d == 8 {
        "8"
    } else {
        "9"
    };
    assert(r@ =~= seq![digit_char(d as nat)]);
    r
}

/// `n` written in decimal.
pub fn decimal(n: usize) -> (r: String)
    ensures
        r@ == decimal_text(n as nat),
    decreases n,
{
    if n < 10 {
        String::from_str(digit_str(n))
    } else {
        let mut s = decimal(n / 10);
        s.append(digit_str(n % 10));
        s
    }
}

/// Reads the log of the latest commits; empty outside a repository (as
/// `rev-parse --git-dir` tells) or when the log failed.
pub fn recent_commits(git_dir: Option<CommandOutput>, log: Option<CommandOutput>) -> (r: Vec<
    CommitLogEntry,
>)
    ensures
        !(git_dir matches Some(o) && o.succeeded()) ==> r.len() == 0,
        (git_dir matches Some(o) && o.succeeded()) ==> entry_views(r@) == match log {
            Some(o) => if o.succeeded() {
                log_entries(lines_of(utf8_lossy_text(o.stdout@)))
            } else {
                Seq::empty()
            },
            None => Seq::empty(),
        },
{
    let is_repo = match &git_dir {
        Some(o) => o.success(),
        None => false,
    };
    let mut entries: Vec<CommitLogEntry> = Vec::new();
    if !is_repo {
        return entries;
    }
    let out = match log {
        Some(o) => o,
        None => {
            assert(entry_views(entries@) =~= Seq::<(Seq<char>, int, Seq<char>)>::empty());
            return entries;
        },
    };
    if !out.success() {
        assert(entry_views(entries@) =~= Seq::<(Seq<char>, int, Seq<char>)>::empty());
        return entries;
    }
    let text = decode_utf8_lossy(&out.stdout);
    let ls = lines(text.as_str());
    let ghost all = views(ls@);
    let mut i: usize = 0;
    assert(entry_views(entries@) =~= log_entries(all.subrange(0, 0)));
    while i < ls.len()
        invariant
            i <= ls.len(),
            all == views(ls@),
            entry_views(entries@) == log_entries(all.subrange(0, i as int)),
        decreases ls.len() - i,
    {
        let ghost w = all.subrange(0, i + 1);
        assert(w.drop_last() =~= all.subrange(0, i as int));
        assert(w.last() == ls@[i as int]@);
        match log_entry(ls[i].as_str()) {
            Some(e) => {
                let ghost ev = (e.sha@, e.timestamp as int, e.subject@);
                entries.push(e);
                assert(entry_views(entries@) =~= log_entries(w));
            },
            None => {},
        }
        i = i + 1;
    }
    assert(all.subrange(0, ls.len() as int) =~= all);
    entries
}

/// The current branch as `branch --show-current` prints it; none on a
/// detached HEAD.
pub open spec fn shown_branch(out: Option<CommandOutput>) -> Option<Seq<char>> {
    match success_text(out) {
        Some(t) => if trimmed(t).len() > 0 {
            Some(trimmed(t))
        } else {
            None
        },
        None => None,
    }
}

pub fn current_branch_name(out: Option<CommandOutput>) -> (r: Option<String>)
    ensures
        opt_text(r) == shown_branch(out),
{
    match output_text(out) {
        Some(t) => {
            let name = trim(t.as_str());
            if name.unicode_len() > 0 {
                Some(String::from_str(name))
            } else {
                None
            }
        },
        None => None,
    }
}

/// `a` comes no later than `b` in the order of `Ord for String`: character
/// by character, by code point, a prefix first.
pub open spec fn text_le(a: Seq<char>, b: Seq<char>) -> bool
    decreases a.len(),
{
    if a.len() == 0 {
        true
    } else if b.len() == 0 {
        false
    } else if a[0] != b[0] {
        (a[0] as u32) < (b[0] as u32)
    } else {
        text_le(a.drop_first(), b.drop_first())
    }
}

/// Relies on `slice::sort_unstable` over `String`s: the same strings, in the
/// ascending order of `Ord for String`, which compares the UTF-8 bytes, and
/// so the characters by code point.
#[verifier::external_body]
fn sort_strings(v: &mut Vec<String>)
    ensures
        views(final(v)@).to_multiset() == views(old(v)@).to_multiset(),
        forall|i: int, j: int|
            0 <= i < j < final(v)@.len() ==> text_le(#[trigger] final(v)@[i]@, #[trigger] final(v)@[j]@),
{
    v.sort_unstable();
}

/// The names that `branch --format=%(refname:short)` printed: each line
/// trimmed, empty ones left out.
pub open spec fn branch_listing(o: CommandOutput) -> Seq<Seq<char>> {
    non_empty(lines_of(utf8_lossy_text(o.stdout@)).map_values(|l: Seq<char>| trimmed(l)))
}

/// `s` is in ascending order.
pub open spec fn sorted_texts(s: Seq<Seq<char>>) -> bool {
    forall|i: int, j: int| 0 <= i < j < s.len() ==> text_le(#[trigger] s[i], #[trigger] s[j])
}

/// The local branches: the names that the listing gives, sorted, with the
/// local default branch (if it is among them) moved to the front.
/// `local_default` is the default that the local search found.
pub fn local_git_branches(out: Option<CommandOutput>, local_default: Option<String>) -> (r: Vec<
    String,
>)
    ensures
        out is Some && out->Some_0.succeeded() ==> exists|s: Seq<Seq<char>>|
            sorted_texts(s) && s.to_multiset() == branch_listing(out->Some_0).to_multiset() && views(r@)
                == match local_default {
                Some(d) => moved_to_front(s, d@),
                None => s,
            },
        !(out matches Some(o) && o.succeeded()) ==> r.len() == 0,
{
    let mut branches: Vec<String> = Vec::new();
    let listed = match &out {
        Some(o) => o.success(),
        None => false,
    };
    if !listed {
        return branches;
    }
    let ghost o = out.unwrap();
    let text = match &out {
        Some(o) => decode_utf8_lossy(&o.stdout),
        None => String::new(),
    };
    let ls = lines(text.as_str());
    let mut trimmed_names: Vec<String> = Vec::new();
    let mut i: usize = 0;
    while i < ls.len()
        invariant
            i <= ls.len(),
            views(trimmed_names@) == views(ls@).subrange(0, i as int).map_values(
                |l: Seq<char>| trimmed(l),
            ),
        decreases ls.len() - i,
    {
        let t = String::from_str(trim(ls[i].as_str()));
        proof {
            assert(views(trimmed_names@.push(t)) =~= views(trimmed_names@).push(t@));
            assert(views(ls@).subrange(0, i + 1).map_values(|l: Seq<char>| trimmed(l)) =~= views(
                ls@,
            ).subrange(0, i as int).map_values(|l: Seq<char>| trimmed(l)).push(trimmed(ls@[i as int]@)));
        }
        trimmed_names.push(t);
        i = i + 1;
    }
    assert(views(ls@).subrange(0, ls.len() as int) =~= views(ls@));
    branches = keep_non_empty(trimmed_names);
    assert(views(branches@) == branch_listing(o));
    sort_strings(&mut branches);
    let ghost sorted = views(branches@);
    assert(sorted_texts(sorted));
    match &local_default {
        Some(d) => {
            move_to_front(&mut branches, d.as_str());
        },
        None => {},
    }
    branches
}

/// What is known of the backend of a workspace: its kind, the facts of that
/// backend (none of the other), and why its tooling cannot be used, if so.
pub struct RevisionControlSummary {
    pub kind: RevisionControlKind,
    pub git: Option<GitInfo>,
    pub darcs: Option<crate::darcs::DarcsInfo>,
    pub tooling_error: Option<String>,
}

/// Puts the facts of the workspace's backend in a summary: the Git facts for
/// a Git workspace, the Darcs facts for a Darcs one.
pub fn collect_revision_control_summary(
    kind: RevisionControlKind,
    tooling_error: Option<String>,
    git: Option<GitInfo>,
    darcs: Option<crate::darcs::DarcsInfo>,
) -> (r: RevisionControlSummary)
    ensures
        r.kind == kind,
        r.tooling_error == tooling_error,
        kind is Git ==> r.git == git && r.darcs is None,
        kind is Darcs ==> r.darcs == darcs && r.git is None,
{
    match kind {
        RevisionControlKind::Git => RevisionControlSummary { kind, git, darcs: None, tooling_error },
        RevisionControlKind::Darcs => RevisionControlSummary {
            kind,
            git: None,
            darcs,
            tooling_error,
        },
    }
}

} // verus!
