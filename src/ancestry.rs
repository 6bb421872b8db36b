//! The candidate branches searched for a commit shared with a remote: the
//! current branch, the default branch, then the remote branches that already
//! contain HEAD, each once, in that order.
use vstd::prelude::*;
use vstd::string::*;

use crate::command::output_text;
use crate::command::success_text;
use crate::closest::remote_ref;
use crate::closest::remote_ref_name;
use crate::command::CommandOutput;
use crate::text::after_prefix;
use crate::text::contains_text;
use crate::text::copy_strings;
use crate::text::rfind_char;
use crate::text::lines;
use crate::text::lines_of;
use crate::text::same_text;
use crate::text::strip_prefix;
use crate::text::trim;
use crate::text::trimmed;
use crate::text::views;

verus! {

/// The position of the first `x` in `s`.
pub open spec fn first_position(s: Seq<Seq<char>>, x: Seq<char>) -> int {
    choose|p: int| 0 <= p < s.len() && s[p] == x && forall|k: int| 0 <= k < p ==> s[k] != x
}

/// `names` with the first `x` moved to the front.
pub open spec fn moved_to_front(names: Seq<Seq<char>>, x: Seq<char>) -> Seq<Seq<char>> {
    if names.contains(x) {
        seq![x] + names.remove(first_position(names, x))
    } else {
        names
    }
}

/// `names` with the first "origin" moved to the front.
pub open spec fn prioritized(names: Seq<Seq<char>>) -> Seq<Seq<char>> {
    moved_to_front(names, "origin"@)
}

/// Moves the first element equal to `x`, if any, to the front; the others
/// keep their order.
pub fn move_to_front(names: &mut Vec<String>, x: &str)
    ensures
        views(final(names)@) == moved_to_front(views(old(names)@), x@),
{
    let ghost v = views(names@);
    let mut i: usize = 0;
    while i < names.len()
        invariant
            i <= names.len(),
            v == views(old(names)@),
            names@ == old(names)@,
            forall|k: int| 0 <= k < i ==> names@[k]@ != x@,
        decreases names.len() - i,
    {
        if same_text(names[i].as_str(), x) {
            proof {
                assert(v[i as int] == x@);
                assert(v.contains(x@));
                let p = first_position(v, x@);
                assert(0 <= p < v.len() && v[p] == x@ && forall|k: int| 0 <= k < p ==> v[k] != x@);
                if p < i {
                    assert(names@[p]@ == v[p]);
                }
                if p > i {
                    assert(v[i as int] != x@);
                }
                assert(p == i);
            }
            let item = names.remove(i);
            names.insert(0, item);
            assert(views(names@) =~= seq![x@] + v.remove(i as int));
            return;
        }
        i = i + 1;
    }
    proof {
        assert forall|k: int| 0 <= k < v.len() implies v[k] != x@ by {
            assert(v[k] == names@[k]@);
        }
    }
}

/// Puts the remote named "origin", if any, first; the others keep their order.
pub fn prioritize_remotes(names: &mut Vec<String>)
    ensures
        views(final(names)@) == prioritized(views(old(names)@)),
{
    move_to_front(names, "origin");
}

/// The remotes that `git remote` listed, "origin" first.
pub open spec fn listed_remotes(out: Option<CommandOutput>) -> Option<Seq<Seq<char>>> {
    match success_text(out) {
        Some(t) => Some(prioritized(lines_of(t))),
        None => None,
    }
}

/// Reads the output of `git remote`; `None` when the command failed.
pub fn parse_remotes(out: Option<CommandOutput>) -> (r: Option<Vec<String>>)
    ensures
        r matches Some(v) ==> listed_remotes(out) == Some(views(v@)),
        r is None ==> listed_remotes(out) is None,
{
    match output_text(out) {
        Some(t) => {
            let mut names = lines(t.as_str());
            prioritize_remotes(&mut names);
            Some(names)
        },
        None => None,
    }
}

/// The current branch as `rev-parse --abbrev-ref HEAD` reports it; a detached
/// HEAD names none.
pub open spec fn current_branch_of(out: Option<CommandOutput>) -> Option<Seq<char>> {
    match success_text(out) {
        Some(t) => if trimmed(t) != "HEAD"@ {
            Some(trimmed(t))
        } else {
            None
        },
        None => None,
    }
}

pub fn parse_current_branch(out: Option<CommandOutput>) -> (r: Option<String>)
    ensures
        r matches Some(b) ==> current_branch_of(out) == Some(b@),
        r is None ==> current_branch_of(out) is None,
{
    match output_text(out) {
        Some(t) => {
            let name = trim(t.as_str());
            if same_text(name, "HEAD") {
                None
            } else {
                Some(String::from_str(name))
            }
        },
        None => None,
    }
}

/// `list` with `c` added at its end, unless `c` is empty or already there.
pub open spec fn with_candidate(list: Seq<Seq<char>>, c: Seq<char>) -> Seq<Seq<char>> {
    if c.len() > 0 && !list.contains(c) {
        list.push(c)
    } else {
        list
    }
}

/// The branch that a line of `for-each-ref` output names on `remote`; empty
/// when the line names a ref of another remote.
pub open spec fn branch_on_remote(remote: Seq<char>, line: Seq<char>) -> Seq<char> {
    match after_prefix(trimmed(line), remote + "/"@) {
        Some(b) => b,
        None => Seq::empty(),
    }
}

/// `list` with the branches that the lines `ls` name on `remote` added.
pub open spec fn with_lines(list: Seq<Seq<char>>, remote: Seq<char>, ls: Seq<Seq<char>>) -> Seq<
    Seq<char>,
>
    decreases ls.len(),
{
    if ls.len() == 0 {
        list
    } else {
        with_candidate(with_lines(list, remote, ls.drop_last()), branch_on_remote(remote, ls.last()))
    }
}

/// The remote branches that contain HEAD, as one remote's `for-each-ref
/// --contains=HEAD` listed them. `listing` is `None` when the command could
/// not be run.
pub struct RemoteListing {
    pub remote: String,
    pub listing: Option<CommandOutput>,
}

pub open spec fn listing_views(v: Seq<RemoteListing>) -> Seq<(Seq<char>, Option<Seq<char>>)> {
    v.map_values(|l: RemoteListing| (l.remote@, success_text(l.listing)))
}

/// `list` with the branches of each listing added, remote by remote.
pub open spec fn with_listings(
    list: Seq<Seq<char>>,
    ls: Seq<(Seq<char>, Option<Seq<char>>)>,
) -> Seq<Seq<char>>
    decreases ls.len(),
{
    if ls.len() == 0 {
        list
    } else {
        let before = with_listings(list, ls.drop_last());
        match ls.last().1 {
            Some(t) => with_lines(before, ls.last().0, lines_of(t)),
            None => before,
        }
    }
}

/// The candidate list: the current branch, then the default branch unless it
/// is the current one, then the branches of the listings.
pub open spec fn ancestry(
    current: Option<Seq<char>>,
    default_branch: Option<Seq<char>>,
    ls: Seq<(Seq<char>, Option<Seq<char>>)>,
) -> Seq<Seq<char>> {
    let a = match current {
        Some(c) => seq![c],
        None => Seq::empty(),
    };
    let b = match default_branch {
        Some(d) => if a.contains(d) {
            a
        } else {
            a.push(d)
        },
        None => a,
    };
    with_listings(b, ls)
}

fn add_candidate(list: &mut Vec<String>, c: &str)
    ensures
        views(final(list)@) == with_candidate(views(old(list)@), c@),
{
    if c.unicode_len() > 0 && !contains_text(list, c) {
        let item = String::from_str(c);
        proof {
            assert(views(list@.push(item)) =~= views(list@).push(item@));
        }
        list.push(item);
    }
}

fn add_listing(list: &mut Vec<String>, remote: &str, text: &str)
    ensures
        views(final(list)@) == with_lines(views(old(list)@), remote@, lines_of(text@)),
{
    let ls = lines(text);
    let mut prefix = String::from_str(remote);
    prefix.append("/");
    let ghost start = views(list@);
    let mut i: usize = 0;
    while i < ls.len()
        invariant
            i <= ls.len(),
            views(ls@) == lines_of(text@),
            prefix@ == remote@ + "/"@,
            views(list@) == with_lines(start, remote@, views(ls@).subrange(0, i as int)),
        decreases ls.len() - i,
    {
        proof {
            let w = views(ls@).subrange(0, i + 1);
            assert(w.drop_last() =~= views(ls@).subrange(0, i as int));
            assert(w.last() == ls@[i as int]@);
        }
        let short = trim(ls[i].as_str());
        match strip_prefix(short, prefix.as_str()) {
            Some(b) => {
                assert(branch_on_remote(remote@, ls@[i as int]@) == b@);
                add_candidate(list, b);
            },
            None => {
                proof {
                    reveal_strlit("");
                    assert(""@ =~= Seq::<char>::empty());
                }
                add_candidate(list, "");
            },
        }
        i = i + 1;
    }
    assert(views(ls@).subrange(0, ls.len() as int) =~= views(ls@));
}

/// Builds the candidate branches in search order: the current branch (from
/// the output of `rev-parse --abbrev-ref HEAD`), the default branch, then for
/// each remote in priority order the branches that its listing names, each
/// branch once.
pub fn branch_ancestry(
    current: Option<CommandOutput>,
    default_branch: Option<String>,
    listings: &Vec<RemoteListing>,
) -> (r: Vec<String>)
    ensures
        views(r@) == ancestry(
            current_branch_of(current),
            match default_branch {
                Some(d) => Some(d@),
                None => None,
            },
            listing_views(listings@),
        ),
        views(r@).no_duplicates(),
{
    let mut list: Vec<String> = Vec::new();
    let current_name = parse_current_branch(current);
    match current_name {
        Some(c) => {
            list.push(c);
        },
        None => {},
    }
    let ghost a = views(list@);
    assert(a =~= match current_branch_of(current) {
        Some(c) => seq![c],
        None => Seq::<Seq<char>>::empty(),
    });
    match default_branch {
        Some(d) => {
            if !contains_text(&list, d.as_str()) {
                proof {
                    assert(views(list@.push(d)) =~= views(list@).push(d@));
                }
                list.push(d);
            }
        },
        None => {},
    }
    proof {
        lemma_no_duplicates_small(views(list@));
    }
    let ghost b = views(list@);
    let ghost all = listing_views(listings@);
    let mut i: usize = 0;
    while i < listings.len()
        invariant
            i <= listings.len(),
            all == listing_views(listings@),
            views(list@) == with_listings(b, all.subrange(0, i as int)),
            views(list@).no_duplicates(),
        decreases listings.len() - i,
    {
        proof {
            let w = all.subrange(0, i + 1);
            assert(w.drop_last() =~= all.subrange(0, i as int));
            assert(w.last() == all[i as int]);
        }
        let entry = &listings[i];
        let ghost before = views(list@);
        match &entry.listing {
            Some(o) => {
                if o.success() {
                    let t = crate::text::decode_utf8(o.stdout.clone());
                    match t {
                        Some(t) => {
                            add_listing(&mut list, entry.remote.as_str(), t.as_str());
                            proof {
                                lemma_with_lines_no_duplicates(
                                    before,
                                    entry.remote@,
                                    lines_of(t@),
                                );
                            }
                        },
                        None => {},
                    }
                }
            },
            None => {},
        }
        i = i + 1;
    }
    assert(all.subrange(0, listings.len() as int) =~= all);
    list
}

/// A list of at most two distinct items has no duplicates.
proof fn lemma_no_duplicates_small(s: Seq<Seq<char>>)
    requires
        s.len() <= 2,
        s.len() == 2 ==> s[0] != s[1],
    ensures
        s.no_duplicates(),
{
}

/// Adding candidates never repeats one.
pub proof fn lemma_with_lines_no_duplicates(
    list: Seq<Seq<char>>,
    remote: Seq<char>,
    ls: Seq<Seq<char>>,
)
    requires
        list.no_duplicates(),
    ensures
        with_lines(list, remote, ls).no_duplicates(),
    decreases ls.len(),
{
    if ls.len() > 0 {
        lemma_with_lines_no_duplicates(list, remote, ls.drop_last());
        let before = with_lines(list, remote, ls.drop_last());
        let c = branch_on_remote(remote, ls.last());
        if c.len() > 0 && !before.contains(c) {
            let after = before.push(c);
            assert forall|i: int, j: int|
                0 <= i < after.len() && 0 <= j < after.len() && i != j implies after[i]
                != after[j] by {
                if i == before.len() as int {
                    assert(after[j] == before[j]);
                } else if j == before.len() as int {
                    assert(after[i] == before[i]);
                }
            }
        }
    }
}

/// What follows the last '/' of `t`, if `t` holds one.
pub open spec fn after_last_slash(t: Seq<char>) -> Option<Seq<char>> {
    if exists|i: int| 0 <= i < t.len() && t[i] == '/' {
        let i = choose|i: int|
            0 <= i < t.len() && t[i] == '/' && forall|k: int| i < k < t.len() ==> t[k] != '/';
        Some(t.subrange(i + 1, t.len() as int))
    } else {
        None
    }
}

/// The branch that a line of `git remote show` names as the remote's HEAD.
pub open spec fn head_branch_of_line(line: Seq<char>) -> Option<Seq<char>> {
    match after_prefix(trimmed(line), "HEAD branch:"@) {
        Some(rest) => if trimmed(rest).len() > 0 {
            Some(trimmed(rest))
        } else {
            None
        },
        None => None,
    }
}

/// The HEAD branch that the first line naming one gives.
pub open spec fn head_branch_of(ls: Seq<Seq<char>>) -> Option<Seq<char>>
    decreases ls.len(),
{
    if ls.len() == 0 {
        None
    } else {
        match head_branch_of_line(ls[0]) {
            Some(b) => Some(b),
            None => head_branch_of(ls.drop_first()),
        }
    }
}

/// The local branches tried, in order, when no remote names a default.
pub open spec fn local_default_name(k: nat) -> Seq<char> {
    if k == 0 {
        "main"@
    } else {
        "master"@
    }
}

/// Where the search for the default branch stands.
pub enum DefaultBranchSearch {
    /// Reading the symbolic ref of `remotes[index]`'s HEAD.
    SymbolicRef { remotes: Vec<String>, index: usize },
    /// Reading `git remote show` for `remotes[index]`.
    RemoteShow { remotes: Vec<String>, index: usize },
    /// Checking whether the local branch "main" (0) or "master" (1) exists.
    LocalBranch { index: usize },
    Finished { branch: Option<String> },
}

/// The mathematical form of a [`DefaultBranchSearch`].
pub enum DefaultSearchState {
    SymbolicRef { remotes: Seq<Seq<char>>, index: nat },
    RemoteShow { remotes: Seq<Seq<char>>, index: nat },
    LocalBranch { index: nat },
    Finished(Option<Seq<char>>),
}

impl View for DefaultBranchSearch {
    type V = DefaultSearchState;

    open spec fn view(&self) -> DefaultSearchState {
        match self {
            DefaultBranchSearch::SymbolicRef { remotes, index } => DefaultSearchState::SymbolicRef {
                remotes: views(remotes@),
                index: *index as nat,
            },
            DefaultBranchSearch::RemoteShow { remotes, index } => DefaultSearchState::RemoteShow {
                remotes: views(remotes@),
                index: *index as nat,
            },
            DefaultBranchSearch::LocalBranch { index } => DefaultSearchState::LocalBranch {
                index: *index as nat,
            },
            DefaultBranchSearch::Finished { branch } => DefaultSearchState::Finished(
                match branch {
                    Some(b) => Some(b@),
                    None => None,
                },
            ),
        }
    }
}

/// The state in which the search starts, over remotes in priority order.
pub open spec fn default_search_start(remotes: Seq<Seq<char>>) -> DefaultSearchState {
    if remotes.len() == 0 {
        DefaultSearchState::LocalBranch { index: 0 }
    } else {
        DefaultSearchState::SymbolicRef { remotes, index: 0 }
    }
}

/// The arguments of the command that the search runs next, if any.
pub open spec fn default_search_command(s: DefaultSearchState) -> Option<Seq<Seq<char>>> {
    match s {
        DefaultSearchState::SymbolicRef { remotes, index } => Some(
            seq!["symbolic-ref"@, "--quiet"@, remote_ref_name(remotes[index as int], "HEAD"@)],
        ),
        DefaultSearchState::RemoteShow { remotes, index } => Some(
            seq!["remote"@, "show"@, remotes[index as int]],
        ),
        DefaultSearchState::LocalBranch { index } => Some(
            seq!["rev-parse"@, "--verify"@, "--quiet"@, "refs/heads/"@ + local_default_name(index)],
        ),
        DefaultSearchState::Finished(_) => None,
    }
}

/// The state after the command that `s` asked for ended with `out`.
pub open spec fn default_search_step(
    s: DefaultSearchState,
    out: Option<CommandOutput>,
) -> DefaultSearchState {
    match s {
        DefaultSearchState::SymbolicRef { remotes, index } => match success_text(out) {
            Some(t) => match after_last_slash(trimmed(t)) {
                Some(n) => DefaultSearchState::Finished(Some(n)),
                None => DefaultSearchState::RemoteShow { remotes, index },
            },
            None => DefaultSearchState::RemoteShow { remotes, index },
        },
        DefaultSearchState::RemoteShow { remotes, index } => {
            let found = match success_text(out) {
                Some(t) => head_branch_of(lines_of(t)),
                None => None,
            };
            match found {
                Some(n) => DefaultSearchState::Finished(Some(n)),
                None => if index + 1 < remotes.len() {
                    DefaultSearchState::SymbolicRef { remotes, index: index + 1 }
                } else {
                    DefaultSearchState::LocalBranch { index: 0 }
                },
            }
        },
        DefaultSearchState::LocalBranch { index } => match out {
            Some(o) => if o.succeeded() {
                DefaultSearchState::Finished(Some(local_default_name(index)))
            } else if index == 0 {
                DefaultSearchState::LocalBranch { index: 1 }
            } else {
                DefaultSearchState::Finished(None)
            },
            None => if index == 0 {
                DefaultSearchState::LocalBranch { index: 1 }
            } else {
                DefaultSearchState::Finished(None)
            },
        },
        DefaultSearchState::Finished(x) => DefaultSearchState::Finished(x),
    }
}

fn name_after_last_slash(t: &str) -> (r: Option<&str>)
    ensures
        r matches Some(n) ==> after_last_slash(t@) == Some(n@),
        r is None ==> after_last_slash(t@) is None,
{
    match rfind_char(t, '/') {
        Some(i) => {
            proof {
                let j = choose|j: int|
                    0 <= j < t@.len() && t@[j] == '/' && forall|k: int|
                        j < k < t@.len() ==> t@[k] != '/';
                assert(j == i) by {
                    if j < i {
                        assert(t@[i as int] == '/');
                    }
                    if j > i {
                        assert(t@[j] == '/');
                    }
                }
            }
            let n = t.unicode_len();
            Some(t.substring_char(i + 1, n))
        },
        None => None,
    }
}

fn find_head_branch(text: &str) -> (r: Option<String>)
    ensures
        r matches Some(n) ==> head_branch_of(lines_of(text@)) == Some(n@),
        r is None ==> head_branch_of(lines_of(text@)) is None,
{
    let ls = lines(text);
    let ghost all = views(ls@);
    let mut i: usize = 0;
    assert(all.subrange(0, all.len() as int) =~= all);
    while i < ls.len()
        invariant
            i <= ls.len(),
            all == views(ls@),
            all == lines_of(text@),
            head_branch_of(all.subrange(i as int, all.len() as int)) == head_branch_of(all),
        decreases ls.len() - i,
    {
        let ghost rest = all.subrange(i as int, all.len() as int);
        assert(rest[0] == ls@[i as int]@);
        assert(rest.drop_first() =~= all.subrange(i + 1, all.len() as int));
        let line = trim(ls[i].as_str());
        match strip_prefix(line, "HEAD branch:") {
            Some(rest_text) => {
                let name = trim(rest_text);
                if name.unicode_len() > 0 {
                    return Some(String::from_str(name));
                }
            },
            None => {},
        }
        i = i + 1;
    }
    None
}

impl DefaultBranchSearch {
    pub open spec fn wf(&self) -> bool {
        match self {
            DefaultBranchSearch::SymbolicRef { remotes, index } => *index < remotes@.len(),
            DefaultBranchSearch::RemoteShow { remotes, index } => *index < remotes@.len(),
            DefaultBranchSearch::LocalBranch { index } => *index <= 1,
            DefaultBranchSearch::Finished { .. } => true,
        }
    }

    /// Starts the search over `remotes`, given in priority order.
    pub fn new(remotes: &Vec<String>) -> (r: DefaultBranchSearch)
        ensures
            r.wf(),
            r@ == default_search_start(views(remotes@)),
    {
        if remotes.len() == 0 {
            DefaultBranchSearch::LocalBranch { index: 0 }
        } else {
            DefaultBranchSearch::SymbolicRef { remotes: copy_strings(remotes), index: 0 }
        }
    }

    /// The arguments of the backend command to run next; `None` once the
    /// search has finished.
    pub fn next_command(&self) -> (r: Option<Vec<String>>)
        requires
            self.wf(),
        ensures
            r matches Some(a) ==> default_search_command(self@) == Some(views(a@)),
            r is None ==> default_search_command(self@) is None,
    {
        match self {
            DefaultBranchSearch::SymbolicRef { remotes, index } => {
                let a = vec![
                    String::from_str("symbolic-ref"),
                    String::from_str("--quiet"),
                    remote_ref(remotes[*index].as_str(), "HEAD"),
                ];
                assert(views(a@) =~= default_search_command(self@).unwrap());
                Some(a)
            },
            DefaultBranchSearch::RemoteShow { remotes, index } => {
                let a = vec![
                    String::from_str("remote"),
                    String::from_str("show"),
                    remotes[*index].clone(),
                ];
                assert(views(a@) =~= default_search_command(self@).unwrap());
                Some(a)
            },
            DefaultBranchSearch::LocalBranch { index } => {
                let mut name = String::from_str("refs/heads/");
                if *index == 0 {
                    name.append("main");
                } else {
                    name.append("master");
                }
                let a = vec![
                    String::from_str("rev-parse"),
                    String::from_str("--verify"),
                    String::from_str("--quiet"),
                    name,
                ];
                assert(views(a@) =~= default_search_command(self@).unwrap());
                Some(a)
            },
            DefaultBranchSearch::Finished { .. } => None,
        }
    }

    /// Takes in the outcome of the command that
    /// [`DefaultBranchSearch::next_command`] named.
    pub fn advance(self, out: Option<CommandOutput>) -> (r: DefaultBranchSearch)
        requires
            self.wf(),
        ensures
            r.wf(),
            r@ == default_search_step(self@, out),
    {
        match self {
            DefaultBranchSearch::SymbolicRef { remotes, index } => {
                match output_text(out) {
                    Some(t) => match name_after_last_slash(trim(t.as_str())) {
                        Some(n) => DefaultBranchSearch::Finished {
                            branch: Some(String::from_str(n)),
                        },
                        None => DefaultBranchSearch::RemoteShow { remotes, index },
                    },
                    None => DefaultBranchSearch::RemoteShow { remotes, index },
                }
            },
            DefaultBranchSearch::RemoteShow { remotes, index } => {
                let found = match output_text(out) {
                    Some(t) => find_head_branch(t.as_str()),
                    None => None,
                };
                match found {
                    Some(n) => DefaultBranchSearch::Finished { branch: Some(n) },
                    None => {
                        if index < remotes.len() - 1 {
                            DefaultBranchSearch::SymbolicRef { remotes, index: index + 1 }
                        } else {
                            DefaultBranchSearch::LocalBranch { index: 0 }
                        }
                    },
                }
            },
            DefaultBranchSearch::LocalBranch { index } => {
                let exists = match &out {
                    Some(o) => o.success(),
                    None => false,
                };
                if exists {
                    let name = if index == 0 {
                        String::from_str("main")
                    } else {
                        String::from_str("master")
                    };
                    DefaultBranchSearch::Finished { branch: Some(name) }
                } else if index == 0 {
                    DefaultBranchSearch::LocalBranch { index: 1 }
                } else {
                    DefaultBranchSearch::Finished { branch: None }
                }
            },
            DefaultBranchSearch::Finished { branch } => DefaultBranchSearch::Finished { branch },
        }
    }

    /// The default branch, once the search has finished: `Some(None)` when no
    /// default branch could be determined.
    pub fn into_result(self) -> (r: Option<Option<String>>)
        ensures
            r matches Some(b) ==> self@ == DefaultSearchState::Finished(
                match b {
                    Some(n) => Some(n@),
                    None => None,
                },
            ),
            r is None ==> !(self@ is Finished),
    {
        match self {
            DefaultBranchSearch::Finished { branch } => Some(branch),
            _ => None,
        }
    }
}

} // verus!
