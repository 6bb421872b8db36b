//! The commands of Git snapshots: a commit of the whole working tree,
//! untracked files included, made through a scratch index so that neither the
//! branch nor the real index moves, and the reset back to such a commit.
use vstd::prelude::*;
use vstd::string::*;

use crate::command::command_line;
use crate::command::format_command;
use crate::command::CommandOutput;
use crate::errors::GitToolingError;
use crate::text::decode_utf8;
use crate::text::decode_utf8_lossy;
use crate::text::trim;
use crate::text::trimmed;
use crate::text::utf8_lossy_text;
use crate::text::utf8_text;
use crate::text::views;

verus! {

/// What a git command run with `args` comes to: its trimmed output, the error
/// of a command that could not be run (`Err` with the system's message), a
/// failure that names the command line, the status and what it printed on
/// standard error, or output that is not UTF-8.
pub fn git_output(args: &Vec<String>, out: Result<CommandOutput, String>) -> (r: Result<
    String,
    GitToolingError,
>)
    ensures
        out matches Err(m) ==> (r matches Err(GitToolingError::Io { message }) && message@
            == m@),
        out matches Ok(o) ==> (o.succeeded() ==> match utf8_text(o.stdout@) {
            Some(t) => r matches Ok(v) && v@ == trimmed(t),
            None => r matches Err(GitToolingError::GitOutputUtf8 { command }) && command@
                == command_line("git"@, views(args@)),
        }),
        out matches Ok(o) ==> (!o.succeeded() ==> (r matches Err(
            GitToolingError::GitCommand { command, status, stderr },
        ) && command@ == command_line("git"@, views(args@)) && status == o.code && stderr@
            == utf8_lossy_text(o.stderr@))),
{
    match out {
        Err(message) => Err(GitToolingError::Io { message }),
        Ok(o) => {
            if !o.success() {
                return Err(
                    GitToolingError::GitCommand {
                        command: format_command("git", args),
                        status: o.code,
                        stderr: decode_utf8_lossy(&o.stderr),
                    },
                );
            }
            match decode_utf8(o.stdout) {
                Some(t) => Ok(String::from_str(trim(t.as_str()))),
                None => Err(GitToolingError::GitOutputUtf8 { command: format_command("git", args) }),
            }
        },
    }
}

/// The arguments that find the top of the working tree.
pub fn top_level_args() -> (r: Vec<String>)
    ensures
        views(r@) == seq!["rev-parse"@, "--show-toplevel"@],
{
    let r = vec![String::from_str("rev-parse"), String::from_str("--show-toplevel")];
    assert(views(r@) =~= seq!["rev-parse"@, "--show-toplevel"@]);
    r
}

/// The arguments that read the commit of HEAD, if there is one.
pub fn head_args() -> (r: Vec<String>)
    ensures
        views(r@) == seq!["rev-parse"@, "--verify"@, "--quiet"@, "HEAD"@],
{
    let r = vec![
        String::from_str("rev-parse"),
        String::from_str("--verify"),
        String::from_str("--quiet"),
        String::from_str("HEAD"),
    ];
    assert(views(r@) =~= seq!["rev-parse"@, "--verify"@, "--quiet"@, "HEAD"@]);
    r
}

/// The commands, run against the scratch index, that fill it with the working
/// tree and write its tree: HEAD's tree first when there is a HEAD, then
/// every file, untracked ones included, as the ignore rules allow.
pub open spec fn index_commands(has_parent: bool) -> Seq<Seq<Seq<char>>> {
    let fill = seq![seq!["add"@, "--all"@], seq!["write-tree"@]];
    if has_parent {
        seq![seq!["read-tree"@, "HEAD"@]] + fill
    } else {
        fill
    }
}

pub fn index_command_list(has_parent: bool) -> (r: Vec<Vec<String>>)
    ensures
        r@.map_values(|a: Vec<String>| views(a@)) == index_commands(has_parent),
{
    let mut r: Vec<Vec<String>> = Vec::new();
    if has_parent {
        r.push(vec![String::from_str("read-tree"), String::from_str("HEAD")]);
    }
    r.push(vec![String::from_str("add"), String::from_str("--all")]);
    r.push(vec![String::from_str("write-tree")]);
    proof {
        let m = r@.map_values(|a: Vec<String>| views(a@));
        if has_parent {
            assert(views(r@[0]@) =~= seq!["read-tree"@, "HEAD"@]);
            assert(views(r@[1]@) =~= seq!["add"@, "--all"@]);
            assert(views(r@[2]@) =~= seq!["write-tree"@]);
        } else {
            assert(views(r@[0]@) =~= seq!["add"@, "--all"@]);
            assert(views(r@[1]@) =~= seq!["write-tree"@]);
        }
        assert(m =~= index_commands(has_parent));
    }
    r
}

/// The arguments that commit `tree` as a snapshot whose parent is `parent`.
pub open spec fn commit_tree_command(tree: Seq<char>, parent: Option<Seq<char>>) -> Seq<
    Seq<char>,
> {
    let base = seq!["commit-tree"@, tree, "-m"@, "codex snapshot"@];
    match parent {
        Some(p) => base + seq!["-p"@, p],
        None => base,
    }
}

pub fn commit_tree_args(tree: &str, parent: Option<&str>) -> (r: Vec<String>)
    ensures
        views(r@) == commit_tree_command(
            tree@,
            match parent {
                Some(p) => Some(p@),
                None => None,
            },
        ),
{
    let mut r = vec![
        String::from_str("commit-tree"),
        String::from_str(tree),
        String::from_str("-m"),
        String::from_str("codex snapshot"),
    ];
    match parent {
        Some(p) => {
            r.push(String::from_str("-p"));
            r.push(String::from_str(p));
        },
        None => {},
    }
    assert(views(r@) =~= commit_tree_command(
        tree@,
        match parent {
            Some(p) => Some(p@),
            None => None,
        },
    ));
    r
}

/// The commands that reset the working tree and index to `commit`, leaving
/// the branch where it is: the tree of `commit` read into the index and the
/// working tree, files it does not hold removed, and the index set back to
/// HEAD when there is one.
pub open spec fn restore_commands(commit: Seq<char>, has_head: bool) -> Seq<Seq<Seq<char>>> {
    let reset = seq![seq!["read-tree"@, "--reset"@, "-u"@, commit], seq!["clean"@, "-fd"@, "-q"@]];
    if has_head {
        reset.push(seq!["reset"@, "-q"@])
    } else {
        reset
    }
}

pub fn restore_command_list(commit: &str, has_head: bool) -> (r: Vec<Vec<String>>)
    ensures
        r@.map_values(|a: Vec<String>| views(a@)) == restore_commands(commit@, has_head),
{
    let mut r: Vec<Vec<String>> = Vec::new();
    r.push(
        vec![
            String::from_str("read-tree"),
            String::from_str("--reset"),
            String::from_str("-u"),
            String::from_str(commit),
        ],
    );
    r.push(vec![String::from_str("clean"), String::from_str("-fd"), String::from_str("-q")]);
    if has_head {
        r.push(vec![String::from_str("reset"), String::from_str("-q")]);
    }
    proof {
        assert(views(r@[0]@) =~= seq!["read-tree"@, "--reset"@, "-u"@, commit@]);
        assert(views(r@[1]@) =~= seq!["clean"@, "-fd"@, "-q"@]);
        if has_head {
            assert(views(r@[2]@) =~= seq!["reset"@, "-q"@]);
        }
        assert(r@.map_values(|a: Vec<String>| views(a@)) =~= restore_commands(commit@, has_head));
    }
    r
}

} // verus!
