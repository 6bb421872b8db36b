//! Reading what the `darcs` program prints: `key: value` fields, XML
//! attributes, and the outcome of `whatsnew`.
use vstd::prelude::*;
use vstd::string::*;

use crate::command::CommandOutput;
use crate::text::decode_utf8_lossy;
use crate::text::find_char;
use crate::text::find_str;
use crate::text::has_prefix_ignoring_case;
use crate::text::lines;
use crate::text::lines_of;
use crate::text::occurs_at;
use crate::text::opt_text;
use crate::text::starts_with_ignoring_case;
use crate::text::trim;
use crate::text::trimmed;
use crate::text::utf8_lossy_text;
use crate::text::views;

verus! {

/// The value of a `key: value` line: what follows the first ':' of the
/// trimmed line, trimmed, when the line starts with `key` (ASCII case aside)
/// and the value is not empty.
pub open spec fn line_value(line: Seq<char>, key: Seq<char>) -> Option<Seq<char>> {
    let t = trimmed(line);
    if t.len() > 0 && has_prefix_ignoring_case(t, key) && exists|i: int|
        0 <= i < t.len() && t[i] == ':' {
        let i = choose|i: int|
            0 <= i < t.len() && t[i] == ':' && forall|k: int| 0 <= k < i ==> t[k] != ':';
        let v = trimmed(t.subrange(i + 1, t.len() as int));
        if v.len() > 0 {
            Some(v)
        } else {
            None
        }
    } else {
        None
    }
}

/// The value of the first line of `ls` that has one for `key`.
pub open spec fn first_value(ls: Seq<Seq<char>>, key: Seq<char>) -> Option<Seq<char>>
    decreases ls.len(),
{
    if ls.len() == 0 {
        None
    } else {
        match line_value(ls[0], key) {
            Some(v) => Some(v),
            None => first_value(ls.drop_first(), key),
        }
    }
}

fn value_of_line(line: &str, key: &str) -> (r: Option<String>)
    ensures
        r matches Some(v) ==> line_value(line@, key@) == Some(v@),
        r is None ==> line_value(line@, key@) is None,
{
    let t = trim(line);
    if t.unicode_len() == 0 || !starts_with_ignoring_case(t, key) {
        return None;
    }
    match find_char(t, ':') {
        Some(i) => {
            proof {
                let j = choose|j: int|
                    0 <= j < t@.len() && t@[j] == ':' && forall|k: int| 0 <= k < j ==> t@[k] != ':';
                assert(j == i) by {
                    if j < i {
                        assert(t@[j] == ':');
                    }
                    if j > i {
                        assert(t@[i as int] == ':');
                    }
                }
            }
            let n = t.unicode_len();
            let v = trim(t.substring_char(i + 1, n));
            if v.unicode_len() > 0 {
                Some(String::from_str(v))
            } else {
                None
            }
        },
        None => None,
    }
}

/// The value of the first `key: value` line of `text`.
pub fn extract_key_value(text: &str, key: &str) -> (r: Option<String>)
    ensures
        r matches Some(v) ==> first_value(lines_of(text@), key@) == Some(v@),
        r is None ==> first_value(lines_of(text@), key@) is None,
{
    let ls = lines(text);
    let ghost all = views(ls@);
    let mut i: usize = 0;
    assert(all.subrange(0, all.len() as int) =~= all);
    while i < ls.len()
        invariant
            i <= ls.len(),
            all == views(ls@),
            all == lines_of(text@),
            first_value(all.subrange(i as int, all.len() as int), key@) == first_value(all, key@),
        decreases ls.len() - i,
    {
        let ghost rest = all.subrange(i as int, all.len() as int);
        assert(rest[0] == ls@[i as int]@);
        assert(rest.drop_first() =~= all.subrange(i + 1, all.len() as int));
        match value_of_line(ls[i].as_str(), key) {
            Some(v) => {
                return Some(v);
            },
            None => {},
        }
        i = i + 1;
    }
    None
}

/// The value of the attribute `attr` quoted with `q` in `text`: the trimmed
/// text between the first `attr=q` and the next `q`, when not empty.
pub open spec fn quoted_value(text: Seq<char>, attr: Seq<char>, q: char) -> Option<Seq<char>> {
    let pattern = attr + seq!['=', q];
    if exists|i: int| occurs_at(text, pattern, i) {
        let i = choose|i: int|
            occurs_at(text, pattern, i) && forall|k: int| 0 <= k < i ==> !occurs_at(text, pattern, k);
        let rest = text.subrange(i + pattern.len(), text.len() as int);
        if exists|e: int| 0 <= e < rest.len() && rest[e] == q {
            let e = choose|e: int|
                0 <= e < rest.len() && rest[e] == q && forall|k: int| 0 <= k < e ==> rest[k] != q;
            let v = trimmed(rest.subrange(0, e));
            if v.len() > 0 {
                Some(v)
            } else {
                None
            }
        } else {
            None
        }
    } else {
        None
    }
}

/// The value of attribute `attr`, written with double quotes or else with
/// single quotes.
pub open spec fn attr_value(text: Seq<char>, attr: Seq<char>) -> Option<Seq<char>> {
    match quoted_value(text, attr, '"') {
        Some(v) => Some(v),
        None => quoted_value(text, attr, '\''),
    }
}

fn value_in_quotes(text: &str, attr: &str, q: char) -> (r: Option<String>)
    requires
        q == '"' || q == '\'',
    ensures
        r matches Some(v) ==> quoted_value(text@, attr@, q) == Some(v@),
        r is None ==> quoted_value(text@, attr@, q) is None,
{
    let mut pattern = String::from_str(attr);
    if q == '"' {
        pattern.append("=\"");
        proof {
            reveal_strlit("=\"");
            assert("=\""@ =~= seq!['=', '"']);
        }
    } else {
        pattern.append("=\'");
        proof {
            reveal_strlit("=\'");
            assert("=\'"@ =~= seq!['=', '\'']);
        }
    }
    assert(pattern@ =~= attr@ + seq!['=', q]);
    match find_str(text, pattern.as_str()) {
        Some(idx) => {
            proof {
                let p = attr@ + seq!['=', q];
                let j = choose|j: int|
                    occurs_at(text@, p, j) && forall|k: int| 0 <= k < j ==> !occurs_at(text@, p, k);
                assert(j == idx) by {
                    if j < idx {
                        assert(occurs_at(text@, p, j));
                    }
                    if j > idx {
                        assert(occurs_at(text@, p, idx as int));
                    }
                }
            }
            let n = text.unicode_len();
            let rest = text.substring_char(idx + pattern.unicode_len(), n);
            match find_char(rest, q) {
                Some(end) => {
                    proof {
                        let e = choose|e: int|
                            0 <= e < rest@.len() && rest@[e] == q && forall|k: int|
                                0 <= k < e ==> rest@[k] != q;
                        assert(e == end) by {
                            if e < end {
                                assert(rest@[e] == q);
                            }
                            if e > end {
                                assert(rest@[end as int] == q);
                            }
                        }
                    }
                    let v = trim(rest.substring_char(0, end));
                    if v.unicode_len() > 0 {
                        Some(String::from_str(v))
                    } else {
                        None
                    }
                },
                None => None,
            }
        },
        None => None,
    }
}

/// The value of the XML attribute `attr` in `text`.
pub fn find_attr_value(text: &str, attr: &str) -> (r: Option<String>)
    ensures
        r matches Some(v) ==> attr_value(text@, attr@) == Some(v@),
        r is None ==> attr_value(text@, attr@) is None,
{
    match value_in_quotes(text, attr, '"') {
        Some(v) => Some(v),
        None => value_in_quotes(text, attr, '\''),
    }
}

/// Facts about a Darcs workspace.
pub struct DarcsInfo {
    pub patch_hash: Option<String>,
    pub branch: Option<String>,
    pub default_remote: Option<String>,
}

/// The lossily decoded standard output of a command that succeeded.
pub open spec fn lossy_success_text(out: Option<CommandOutput>) -> Option<Seq<char>> {
    match out {
        Some(o) => if o.succeeded() {
            Some(utf8_lossy_text(o.stdout@))
        } else {
            None
        },
        None => None,
    }
}

fn lossy_output(out: Option<CommandOutput>) -> (r: Option<String>)
    ensures
        r matches Some(t) ==> lossy_success_text(out) == Some(t@),
        r is None ==> lossy_success_text(out) is None,
{
    match out {
        Some(o) => {
            if o.success() {
                Some(decode_utf8_lossy(&o.stdout))
            } else {
                None
            }
        },
        None => None,
    }
}

/// The value of the first of `keys` that some line of `text` gives.
pub open spec fn value_for_keys(text: Seq<char>, keys: Seq<Seq<char>>) -> Option<Seq<char>>
    decreases keys.len(),
{
    if keys.len() == 0 {
        None
    } else {
        match first_value(lines_of(text), keys[0]) {
            Some(v) => Some(v),
            None => value_for_keys(text, keys.drop_first()),
        }
    }
}

/// The keys under which `show repo` names the default remote.
pub open spec fn remote_keys() -> Seq<Seq<char>> {
    seq!["Default Remote"@, "Default remote"@]
}

/// The keys under which `show repo` names the branch.
pub open spec fn branch_keys() -> Seq<Seq<char>> {
    seq!["Current branch"@, "Current Branch"@, "Default branch"@, "Default Branch"@]
}

/// What `collect_darcs_info` reports: `None` when `show repo` failed, else
/// the fields it names, with `patch_hash` as found separately.
pub open spec fn darcs_info_of(show: Option<CommandOutput>) -> Option<
    (Option<Seq<char>>, Option<Seq<char>>),
> {
    match lossy_success_text(show) {
        Some(t) => Some((value_for_keys(t, remote_keys()), value_for_keys(t, branch_keys()))),
        None => None,
    }
}

/// Looks the keys up in order.
fn value_for(text: &str, keys: &Vec<&str>) -> (r: Option<String>)
    ensures
        r matches Some(v) ==> value_for_keys(text@, keys@.map_values(|k: &str| k@)) == Some(v@),
        r is None ==> value_for_keys(text@, keys@.map_values(|k: &str| k@)) is None,
{
    let ghost all = keys@.map_values(|k: &str| k@);
    let mut i: usize = 0;
    assert(all.subrange(0, all.len() as int) =~= all);
    while i < keys.len()
        invariant
            i <= keys.len(),
            all == keys@.map_values(|k: &str| k@),
            value_for_keys(text@, all.subrange(i as int, all.len() as int)) == value_for_keys(
                text@,
                all,
            ),
        decreases keys.len() - i,
    {
        let ghost rest = all.subrange(i as int, all.len() as int);
        assert(rest[0] == keys@[i as int]@);
        assert(rest.drop_first() =~= all.subrange(i + 1, all.len() as int));
        match extract_key_value(text, keys[i]) {
            Some(v) => {
                return Some(v);
            },
            None => {},
        }
        i = i + 1;
    }
    None
}

/// Reads the default remote and the branch from the output of `show repo`,
/// and puts them with the hash of the latest patch; `None` when `show repo`
/// failed.
pub fn collect_darcs_info(show: Option<CommandOutput>, patch_hash: Option<String>) -> (r: Option<
    DarcsInfo,
>)
    ensures
        r matches Some(info) ==> (darcs_info_of(show) matches Some(fields) && fields.0 == opt_text(
            info.default_remote,
        ) && fields.1 == opt_text(info.branch) && info.patch_hash == patch_hash),
        r is None ==> darcs_info_of(show) is None,
{
    let text = match lossy_output(show) {
        Some(t) => t,
        None => return None,
    };
    let remote_names = vec!["Default Remote", "Default remote"];
    let branch_names = vec!["Current branch", "Current Branch", "Default branch", "Default Branch"];
    assert(remote_names@.map_values(|k: &str| k@) =~= remote_keys());
    assert(branch_names@.map_values(|k: &str| k@) =~= branch_keys());
    let default_remote = value_for(text.as_str(), &remote_names);
    let branch = value_for(text.as_str(), &branch_names);
    Some(DarcsInfo { patch_hash, branch, default_remote })
}

/// The hash of the latest patch as `changes --last=1 --xml` gives it.
pub fn patch_hash_from_xml(out: Option<CommandOutput>) -> (r: Option<String>)
    ensures
        r matches Some(h) ==> (lossy_success_text(out) matches Some(t) && attr_value(t, "hash"@)
            == Some(h@)),
        r is None ==> (lossy_success_text(out) matches Some(t) ==> attr_value(t, "hash"@) is None),
{
    match lossy_output(out) {
        Some(t) => find_attr_value(t.as_str(), "hash"),
        None => None,
    }
}

/// The hash of the latest patch as `changes --last=1` gives it.
pub fn patch_hash_from_changes(out: Option<CommandOutput>) -> (r: Option<String>)
    ensures
        r matches Some(h) ==> (lossy_success_text(out) matches Some(t) && first_value(
            lines_of(t),
            "Patch hash"@,
        ) == Some(h@)),
        r is None ==> (lossy_success_text(out) matches Some(t) ==> first_value(
            lines_of(t),
            "Patch hash"@,
        ) is None),
{
    match lossy_output(out) {
        Some(t) => extract_key_value(t.as_str(), "Patch hash"),
        None => None,
    }
}

/// The diff that `whatsnew` printed, when it ended with status 0 or 1.
pub fn whatsnew_diff(out: &CommandOutput) -> (r: Option<String>)
    ensures
        out.diff_succeeded() ==> (r matches Some(t) && t@ == utf8_lossy_text(out.stdout@)),
        !out.diff_succeeded() ==> r is None,
{
    if out.diff_success() {
        Some(decode_utf8_lossy(&out.stdout))
    } else {
        None
    }
}

} // verus!
