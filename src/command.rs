//! What a backend command hands back, and how its exit status is read.
use vstd::prelude::*;
use vstd::string::*;

use crate::text::decode_utf8;
use crate::text::utf8_text;

verus! {

/// The outcome of one backend command that ran to completion. A command that
/// could not be started or that timed out has no outcome (`None` where one is
/// expected).
#[derive(Clone, Debug)]
pub struct CommandOutput {
    /// The exit code; `None` when the process was ended by a signal.
    pub code: Option<i32>,
    pub stdout: Vec<u8>,
    pub stderr: Vec<u8>,
}

impl CommandOutput {
    /// The command exited with status 0.
    pub open spec fn succeeded(&self) -> bool {
        self.code == Some(0i32)
    }

    /// The command exited with status 0, or with status 1, by which diff
    /// commands report that differences were found.
    pub open spec fn diff_succeeded(&self) -> bool {
        self.code == Some(0i32) || self.code == Some(1i32)
    }

    pub fn success(&self) -> (r: bool)
        ensures
            r == self.succeeded(),
    {
        match self.code {
            Some(c) => c == 0,
            None => false,
        }
    }

    pub fn diff_success(&self) -> (r: bool)
        ensures
            r == self.diff_succeeded(),
    {
        match self.code {
            Some(c) => c == 0 || c == 1,
            None => false,
        }
    }
}

/// The standard output of a command that succeeded, when it is valid UTF-8.
pub open spec fn success_text(out: Option<CommandOutput>) -> Option<Seq<char>> {
    match out {
        Some(o) => if o.succeeded() {
            utf8_text(o.stdout@)
        } else {
            None
        },
        None => None,
    }
}

pub fn output_text(out: Option<CommandOutput>) -> (r: Option<String>)
    ensures
        r matches Some(t) ==> success_text(out) == Some(t@),
        r is None ==> success_text(out) is None,
{
    match out {
        Some(o) => {
            if o.success() {
                decode_utf8(o.stdout)
            } else {
                None
            }
        },
        None => None,
    }
}

/// A command line: the program followed by each argument after one space.
pub open spec fn command_line(program: Seq<char>, args: Seq<Seq<char>>) -> Seq<char>
    decreases args.len(),
{
    if args.len() == 0 {
        program
    } else {
        command_line(program, args.drop_last()) + seq![' '] + args.last()
    }
}

/// The command line of `program` run with `args`, as error messages show it.
pub fn format_command(program: &str, args: &Vec<String>) -> (r: String)
    ensures
        r@ == command_line(program@, crate::text::views(args@)),
{
    let mut cmd = String::from_str(program);
    let mut i: usize = 0;
    proof {
        reveal_strlit(" ");
    }
    while i < args.len()
        invariant
            i <= args.len(),
            cmd@ == command_line(program@, crate::text::views(args@.subrange(0, i as int))),
        decreases args.len() - i,
    {
        proof {
            let v = crate::text::views(args@.subrange(0, i + 1));
            assert(v.drop_last() =~= crate::text::views(args@.subrange(0, i as int)));
            assert(v.last() == args@[i as int]@);
            reveal_strlit(" ");
            assert(" "@ =~= seq![' ']);
        }
        cmd.append(" ");
        cmd.append(args[i].as_str());
        i = i + 1;
    }
    assert(args@.subrange(0, args.len() as int) =~= args@);
    cmd
}

} // verus!
