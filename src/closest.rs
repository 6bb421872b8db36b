//! Finding the commit closest to HEAD that a remote also has.
//!
//! Each candidate branch is probed in turn: first the remotes, in priority
//! order, for a copy of the branch; then the number of commits by which HEAD is
//! ahead of it. The probe is a state machine that names the next backend command
//! and consumes its outcome; the caller runs the commands. The eligible branch
//! with the least distance wins, the earlier one on equal distances.
use vstd::prelude::*;
use vstd::string::*;

use crate::command::CommandOutput;
use crate::text::copy_strings;
use crate::text::decode_utf8;
use crate::text::parse_usize;
use crate::text::parsed_unsigned;
use crate::text::trim;
use crate::text::trimmed;
use crate::text::utf8_text;
use crate::text::views;

verus! {

/// The ref under which `remote` keeps its copy of `branch`.
pub open spec fn remote_ref_name(remote: Seq<char>, branch: Seq<char>) -> Seq<char> {
    "refs/remotes/"@ + remote + "/"@ + branch
}

pub fn remote_ref(remote: &str, branch: &str) -> (r: String)
    ensures
        r@ == remote_ref_name(remote@, branch@),
{
    let mut s = String::from_str("refs/remotes/");
    s.append(remote);
    s.append("/");
    s.append(branch);
    s
}

/// The revision range of the commits that HEAD has and `base` lacks.
pub open spec fn ahead_range(base: Seq<char>) -> Seq<char> {
    base + "..HEAD"@
}

pub fn ahead_of(base: &str) -> (r: String)
    ensures
        r@ == ahead_range(base@),
{
    let mut s = String::from_str(base);
    s.append("..HEAD");
    s
}

/// What probing one candidate branch established.
pub enum BranchOutcome {
    /// A probe for a remote ref could not be run at all, so whether the branch
    /// exists on a remote is unknown.
    Unknown,
    /// No remote has the branch, or its distance could not be computed.
    Ineligible,
    /// `sha` is the remote copy of the branch; HEAD is `distance` commits ahead.
    Eligible { sha: String, distance: usize },
}

/// The mathematical form of a [`BranchOutcome`].
pub enum Outcome {
    Unknown,
    Ineligible,
    Eligible(Seq<char>, nat),
}

impl View for BranchOutcome {
    type V = Outcome;

    open spec fn view(&self) -> Outcome {
        match self {
            BranchOutcome::Unknown => Outcome::Unknown,
            BranchOutcome::Ineligible => Outcome::Ineligible,
            BranchOutcome::Eligible { sha, distance } => Outcome::Eligible(sha@, *distance as nat),
        }
    }
}

pub open spec fn outcome_views(v: Seq<BranchOutcome>) -> Seq<Outcome> {
    v.map_values(|o: BranchOutcome| o@)
}

/// The best eligible candidate of `s` with its distance: least distance, and
/// among equal distances the first.
pub open spec fn best_of(s: Seq<Outcome>) -> Option<(Seq<char>, nat)>
    decreases s.len(),
{
    if s.len() == 0 {
        None
    } else {
        let b = best_of(s.drop_last());
        match s.last() {
            Outcome::Eligible(sha, d) => match b {
                None => Some((sha, d)),
                Some(best) => if d < best.1 {
                    Some((sha, d))
                } else {
                    b
                },
            },
            _ => b,
        }
    }
}

/// Some probe ended without an answer.
pub open spec fn any_unknown(s: Seq<Outcome>) -> bool {
    exists|i: int| 0 <= i < s.len() && s[i] is Unknown
}

/// The commit that closest-commit resolution returns for the outcomes `s` of
/// the candidates, in candidate order.
pub open spec fn closest_commit(s: Seq<Outcome>) -> Option<Seq<char>> {
    if any_unknown(s) {
        None
    } else {
        match best_of(s) {
            Some(best) => Some(best.0),
            None => None,
        }
    }
}

/// The remote commit of the candidate that wins: the one with the least
/// distance, the earliest of those on a tie. `None` when no candidate is
/// eligible, or when some probe could not tell whether its branch exists on a
/// remote.
pub fn find_closest_commit(outcomes: &Vec<BranchOutcome>) -> (r: Option<String>)
    ensures
        r matches Some(sha) ==> closest_commit(outcome_views(outcomes@)) == Some(sha@),
        r is None ==> closest_commit(outcome_views(outcomes@)) is None,
{
    let ghost all = outcome_views(outcomes@);
    let mut best: Option<usize> = None;
    let mut best_distance: usize = 0;
    let mut i: usize = 0;
    while i < outcomes.len()
        invariant
            i <= outcomes.len(),
            all == outcome_views(outcomes@),
            forall|k: int| 0 <= k < i ==> !(all[k] is Unknown),
            match best {
                None => best_of(all.subrange(0, i as int)) is None,
                Some(b) => b < i && (outcomes@[b as int] matches BranchOutcome::Eligible {
                    sha,
                    distance,
                } && distance == best_distance && best_of(all.subrange(0, i as int)) == Some(
                    (sha@, distance as nat),
                )),
            },
        decreases outcomes.len() - i,
    {
        assert(all.subrange(0, i + 1).drop_last() =~= all.subrange(0, i as int));
        match &outcomes[i] {
            BranchOutcome::Unknown => {
                assert(all[i as int] is Unknown);
                return None;
            },
            BranchOutcome::Ineligible => {},
            BranchOutcome::Eligible { sha: _, distance } => {
                match best {
                    None => {
                        best = Some(i);
                        best_distance = *distance;
                    },
                    Some(_) => {
                        if *distance < best_distance {
                            best = Some(i);
                            best_distance = *distance;
                        }
                    },
                }
            },
        }
        i = i + 1;
    }
    assert(all.subrange(0, outcomes.len() as int) =~= all);
    match best {
        None => None,
        Some(b) => match &outcomes[b] {
            BranchOutcome::Eligible { sha, distance: _ } => Some(sha.clone()),
            _ => None,
        },
    }
}

/// Where the probe of one candidate branch stands.
pub enum BranchProbe {
    /// Asking whether `remotes[index]` has a copy of `branch`.
    Verifying { branch: String, remotes: Vec<String>, index: usize },
    /// The remote copy was found; counting against the local branch.
    CountingLocal { branch: String, sha: String, remote_ref: String },
    /// The local count failed; counting against the remote copy.
    CountingRemote { sha: String, remote_ref: String },
    /// Nothing is left to run.
    Finished { outcome: BranchOutcome },
}

/// The mathematical form of a [`BranchProbe`].
pub enum ProbeState {
    Verifying { branch: Seq<char>, remotes: Seq<Seq<char>>, index: nat },
    CountingLocal { branch: Seq<char>, sha: Seq<char>, remote_ref: Seq<char> },
    CountingRemote { sha: Seq<char>, remote_ref: Seq<char> },
    Finished(Outcome),
}

impl View for BranchProbe {
    type V = ProbeState;

    open spec fn view(&self) -> ProbeState {
        match self {
            BranchProbe::Verifying { branch, remotes, index } => ProbeState::Verifying {
                branch: branch@,
                remotes: views(remotes@),
                index: *index as nat,
            },
            BranchProbe::CountingLocal { branch, sha, remote_ref } => ProbeState::CountingLocal {
                branch: branch@,
                sha: sha@,
                remote_ref: remote_ref@,
            },
            BranchProbe::CountingRemote { sha, remote_ref } => ProbeState::CountingRemote {
                sha: sha@,
                remote_ref: remote_ref@,
            },
            BranchProbe::Finished { outcome } => ProbeState::Finished(outcome@),
        }
    }
}

/// The state in which the probe of `branch` starts: a branch that no remote
/// could hold is ineligible at once.
pub open spec fn probe_start(branch: Seq<char>, remotes: Seq<Seq<char>>) -> ProbeState {
    if remotes.len() == 0 {
        ProbeState::Finished(Outcome::Ineligible)
    } else {
        ProbeState::Verifying { branch, remotes, index: 0 }
    }
}

/// The arguments of the command that the probe runs next, if any.
pub open spec fn probe_command(p: ProbeState) -> Option<Seq<Seq<char>>> {
    match p {
        ProbeState::Verifying { branch, remotes, index } => Some(
            seq![
                "rev-parse"@,
                "--verify"@,
                "--quiet"@,
                remote_ref_name(remotes[index as int], branch),
            ],
        ),
        ProbeState::CountingLocal { branch, .. } => Some(
            seq!["rev-list"@, "--count"@, ahead_range(branch)],
        ),
        ProbeState::CountingRemote { remote_ref, .. } => Some(
            seq!["rev-list"@, "--count"@, ahead_range(remote_ref)],
        ),
        ProbeState::Finished(_) => None,
    }
}

/// What a finished count makes of the branch whose remote copy is `sha`.
pub open spec fn counted(o: CommandOutput, sha: Seq<char>) -> Outcome {
    if !o.succeeded() {
        Outcome::Ineligible
    } else {
        match utf8_text(o.stdout@) {
            None => Outcome::Ineligible,
            Some(t) => match parsed_unsigned(trimmed(t)) {
                Some(d) => Outcome::Eligible(sha, d),
                None => Outcome::Ineligible,
            },
        }
    }
}

/// The state after the command that `p` asked for ended with `out` (`None`:
/// it could not be started, or timed out).
pub open spec fn probe_step(p: ProbeState, out: Option<CommandOutput>) -> ProbeState {
    match p {
        ProbeState::Verifying { branch, remotes, index } => match out {
            None => ProbeState::Finished(Outcome::Unknown),
            Some(o) => if !o.succeeded() {
                if index + 1 < remotes.len() {
                    ProbeState::Verifying { branch, remotes, index: index + 1 }
                } else {
                    ProbeState::Finished(Outcome::Ineligible)
                }
            } else {
                match utf8_text(o.stdout@) {
                    None => ProbeState::Finished(Outcome::Ineligible),
                    Some(t) => ProbeState::CountingLocal {
                        branch,
                        sha: trimmed(t),
                        remote_ref: remote_ref_name(remotes[index as int], branch),
                    },
                }
            },
        },
        ProbeState::CountingLocal { branch, sha, remote_ref } => match out {
            Some(o) => if o.succeeded() {
                ProbeState::Finished(counted(o, sha))
            } else {
                ProbeState::CountingRemote { sha, remote_ref }
            },
            None => ProbeState::CountingRemote { sha, remote_ref },
        },
        ProbeState::CountingRemote { sha, remote_ref } => match out {
            Some(o) => ProbeState::Finished(counted(o, sha)),
            None => ProbeState::Finished(Outcome::Ineligible),
        },
        ProbeState::Finished(x) => ProbeState::Finished(x),
    }
}

impl BranchProbe {
    /// The probe is in a state that it can reach.
    pub open spec fn wf(&self) -> bool {
        match self {
            BranchProbe::Verifying { remotes, index, .. } => *index < remotes@.len(),
            _ => true,
        }
    }

    /// Starts probing `branch` against `remotes`, given in priority order.
    pub fn new(branch: &str, remotes: &Vec<String>) -> (r: BranchProbe)
        ensures
            r.wf(),
            r@ == probe_start(branch@, views(remotes@)),
    {
        if remotes.len() == 0 {
            BranchProbe::Finished { outcome: BranchOutcome::Ineligible }
        } else {
            let copy = copy_strings(remotes);
            BranchProbe::Verifying { branch: String::from_str(branch), remotes: copy, index: 0 }
        }
    }

    /// The arguments of the backend command to run next; `None` once the
    /// probe has finished.
    pub fn next_command(&self) -> (r: Option<Vec<String>>)
        requires
            self.wf(),
        ensures
            r matches Some(a) ==> probe_command(self@) == Some(views(a@)),
            r is None ==> probe_command(self@) is None,
    {
        match self {
            BranchProbe::Verifying { branch, remotes, index } => {
                let a = vec![
                    String::from_str("rev-parse"),
                    String::from_str("--verify"),
                    String::from_str("--quiet"),
                    remote_ref(remotes[*index].as_str(), branch.as_str()),
                ];
                assert(views(a@) =~= probe_command(self@).unwrap());
                Some(a)
            },
            BranchProbe::CountingLocal { branch, .. } => {
                let a = vec![
                    String::from_str("rev-list"),
                    String::from_str("--count"),
                    ahead_of(branch.as_str()),
                ];
                assert(views(a@) =~= probe_command(self@).unwrap());
                Some(a)
            },
            BranchProbe::CountingRemote { remote_ref, .. } => {
                let a = vec![
                    String::from_str("rev-list"),
                    String::from_str("--count"),
                    ahead_of(remote_ref.as_str()),
                ];
                assert(views(a@) =~= probe_command(self@).unwrap());
                Some(a)
            },
            BranchProbe::Finished { .. } => None,
        }
    }

    /// Takes in the outcome of the command that [`BranchProbe::next_command`]
    /// named.
    pub fn advance(self, out: Option<CommandOutput>) -> (r: BranchProbe)
        requires
            self.wf(),
        ensures
            r.wf(),
            r@ == probe_step(self@, out),
    {
        match self {
            BranchProbe::Verifying { branch, remotes, index } => match out {
                None => BranchProbe::Finished { outcome: BranchOutcome::Unknown },
                Some(o) => {
                    if !o.success() {
                        if index < remotes.len() - 1 {
                            BranchProbe::Verifying { branch, remotes, index: index + 1 }
                        } else {
                            BranchProbe::Finished { outcome: BranchOutcome::Ineligible }
                        }
                    } else {
                        match decode_utf8(o.stdout) {
                            None => BranchProbe::Finished { outcome: BranchOutcome::Ineligible },
                            Some(t) => {
                                let sha = String::from_str(trim(t.as_str()));
                                let remote_ref = remote_ref(
                                    remotes[index].as_str(),
                                    branch.as_str(),
                                );
                                BranchProbe::CountingLocal { branch, sha, remote_ref }
                            },
                        }
                    }
                },
            },
            BranchProbe::CountingLocal { branch, sha, remote_ref } => match out {
                Some(o) => {
                    if o.success() {
                        BranchProbe::Finished { outcome: count_outcome(o, sha) }
                    } else {
                        BranchProbe::CountingRemote { sha, remote_ref }
                    }
                },
                None => BranchProbe::CountingRemote { sha, remote_ref },
            },
            BranchProbe::CountingRemote { sha, remote_ref } => match out {
                Some(o) => BranchProbe::Finished { outcome: count_outcome(o, sha) },
                None => BranchProbe::Finished { outcome: BranchOutcome::Ineligible },
            },
            BranchProbe::Finished { outcome } => BranchProbe::Finished { outcome },
        }
    }

    /// The outcome, once the probe has finished.
    pub fn into_outcome(self) -> (r: Option<BranchOutcome>)
        ensures
            r matches Some(o) ==> self@ == ProbeState::Finished(o@),
            r is None ==> !(self@ is Finished),
    {
        match self {
            BranchProbe::Finished { outcome } => Some(outcome),
            _ => None,
        }
    }
}

/// The outcome of a count that ran to completion.
fn count_outcome(o: CommandOutput, sha: String) -> (r: BranchOutcome)
    ensures
        r@ == counted(o, sha@),
{
    if !o.success() {
        return BranchOutcome::Ineligible;
    }
    match decode_utf8(o.stdout) {
        None => BranchOutcome::Ineligible,
        Some(t) => match parse_usize(trim(t.as_str())) {
            Some(distance) => BranchOutcome::Eligible { sha, distance },
            None => BranchOutcome::Ineligible,
        },
    }
}

/// The best eligible candidate of `s` is one of its eligible candidates, and
/// there is none when no candidate is eligible.
pub proof fn lemma_best_is_member(s: Seq<Outcome>)
    ensures
        best_of(s) matches Some(b) ==> exists|k: int|
            0 <= k < s.len() && s[k] == Outcome::Eligible(b.0, b.1),
        best_of(s) is None ==> forall|k: int| 0 <= k < s.len() ==> !(s[k] is Eligible),
    decreases s.len(),
{
    if s.len() > 0 {
        let t = s.drop_last();
        lemma_best_is_member(t);
        if let Some(b) = best_of(t) {
            let k = choose|k: int| 0 <= k < t.len() && t[k] == Outcome::Eligible(b.0, b.1);
            assert(s[k] == t[k]);
        }
        assert forall|k: int| 0 <= k < t.len() implies s[k] == t[k] by {}
    }
}

/// The candidate at `i` wins when it is eligible, no eligible candidate is
/// nearer, and every eligible candidate before it is farther.
pub proof fn lemma_first_minimum_wins(s: Seq<Outcome>, i: int)
    requires
        0 <= i < s.len(),
        s[i] is Eligible,
        forall|k: int|
            0 <= k < s.len() && #[trigger] s[k] is Eligible ==> s[i]->Eligible_1 <= s[k]->Eligible_1,
        forall|k: int|
            0 <= k < i && #[trigger] s[k] is Eligible ==> s[i]->Eligible_1 < s[k]->Eligible_1,
    ensures
        best_of(s) == Some((s[i]->Eligible_0, s[i]->Eligible_1)),
    decreases s.len(),
{
    let t = s.drop_last();
    if i == s.len() - 1 {
        lemma_best_is_member(t);
        if let Some(b) = best_of(t) {
            let k = choose|k: int| 0 <= k < t.len() && t[k] == Outcome::Eligible(b.0, b.1);
            assert(s[k] == t[k]);
        }
    } else {
        assert forall|k: int| 0 <= k < t.len() implies t[k] == s[k] by {}
        lemma_first_minimum_wins(t, i);
        assert(s.last() == s[s.len() - 1]);
    }
}

/// When no candidate has a remote counterpart, there is no closest commit.
pub proof fn lemma_no_eligible_no_commit(s: Seq<Outcome>)
    requires
        forall|k: int| 0 <= k < s.len() ==> !(s[k] is Eligible),
    ensures
        closest_commit(s) is None,
    decreases s.len(),
{
    if s.len() > 0 {
        let t = s.drop_last();
        assert forall|k: int| 0 <= k < t.len() implies !(t[k] is Eligible) by {
            assert(t[k] == s[k]);
        }
        lemma_no_eligible_no_commit(t);
        lemma_best_is_member(t);
        assert(best_of(t) is None);
    }
}

/// With no remote configured, the probe of every candidate branch finishes at
/// once as ineligible, and closest-commit resolution over those outcomes finds
/// no commit.
pub proof fn lemma_no_remote_no_commit(branches: Seq<Seq<char>>)
    ensures
        forall|i: int|
            0 <= i < branches.len() ==> probe_start(branches[i], Seq::empty()) == ProbeState::Finished(
                Outcome::Ineligible,
            ),
        closest_commit(Seq::new(branches.len(), |i: int| Outcome::Ineligible)) is None,
{
    lemma_no_eligible_no_commit(Seq::new(branches.len(), |i: int| Outcome::Ineligible));
}

/// When exactly one candidate has a remote counterpart and every probe gave
/// an answer, that candidate's remote commit is returned, wherever it stands
/// in the list.
pub proof fn lemma_single_eligible_wins(s: Seq<Outcome>, i: int)
    requires
        0 <= i < s.len(),
        s[i] is Eligible,
        forall|k: int| 0 <= k < s.len() && k != i ==> s[k] is Ineligible,
    ensures
        closest_commit(s) == Some(s[i]->Eligible_0),
{
    assert forall|k: int| 0 <= k < s.len() && #[trigger] s[k] is Eligible implies s[i]->Eligible_1
        <= s[k]->Eligible_1 by {
        if k != i {
            assert(s[k] is Ineligible);
        }
    }
    lemma_first_minimum_wins(s, i);
    assert(!any_unknown(s)) by {
        assert forall|k: int| 0 <= k < s.len() implies !(s[k] is Unknown) by {
            if k != i {
                assert(s[k] is Ineligible);
            }
        }
    }
}

/// Of two eligible candidates, the nearer wins; on equal distances, the one
/// listed first.
pub proof fn lemma_nearer_then_earlier_wins(a: Seq<char>, da: nat, b: Seq<char>, db: nat)
    ensures
        db < da ==> closest_commit(seq![Outcome::Eligible(a, da), Outcome::Eligible(b, db)])
            == Some(b),
        da < db ==> closest_commit(seq![Outcome::Eligible(a, da), Outcome::Eligible(b, db)])
            == Some(a),
        da == db ==> closest_commit(seq![Outcome::Eligible(a, da), Outcome::Eligible(b, db)])
            == Some(a),
{
    let s = seq![Outcome::Eligible(a, da), Outcome::Eligible(b, db)];
    assert(s.drop_last() =~= seq![Outcome::Eligible(a, da)]);
    assert(seq![Outcome::Eligible(a, da)].drop_last() =~= Seq::<Outcome>::empty());
    assert(best_of(Seq::<Outcome>::empty()) is None);
    assert(best_of(seq![Outcome::Eligible(a, da)]) == Some((a, da)));
    assert(s.last() == Outcome::Eligible(b, db));
    assert(!any_unknown(s)) by {
        assert forall|k: int| 0 <= k < s.len() implies !(s[k] is Unknown) by {}
    }
}

} // verus!
