//! How external commands are described in messages and how their failures
//! read.
use vstd::prelude::*;
use crate::config::strings_view;
use crate::text::{chars_has, chars_of, has_char, owned, trim, trim_str};

verus! {

/// An argument as it appears in a command's description: in double quotes
/// when it holds a space.
pub open spec fn described_arg(a: Seq<char>) -> Seq<char> {
    if has_char(a, ' ') {
        "\""@ + a + "\""@
    } else {
        a
    }
}

pub fn quote_os_str(value: &str) -> (r: String)
    ensures
        r@ == described_arg(value@),
{
    let v = chars_of(value);
    if chars_has(&v, ' ') {
        let mut r = owned("\"");
        r.push_str(value);
        r.push_str("\"");
        r
    } else {
        owned(value)
    }
}

/// The arguments, described, separated by spaces.
pub open spec fn described_args(args: Seq<Seq<char>>) -> Seq<char>
    decreases args.len(),
{
    if args.len() == 0 {
        seq![]
    } else if args.len() == 1 {
        described_arg(args[0])
    } else {
        described_args(args.drop_last()) + " "@ + described_arg(args.last())
    }
}

/// A command as messages show it: the program, then its arguments.
pub open spec fn described_command(program: Seq<char>, args: Seq<Seq<char>>) -> Seq<char> {
    if described_args(args).len() == 0 {
        program
    } else {
        program + " "@ + described_args(args)
    }
}

pub fn describe(program: &str, args: &Vec<String>) -> (r: String)
    ensures
        r@ == described_command(program@, strings_view(args@)),
{
    let ghost av = strings_view(args@);
    let mut joined = String::new();
    let mut i: usize = 0;
    assert(av.take(0) =~= Seq::<Seq<char>>::empty());
    while i < args.len()
        invariant
            i <= args.len(),
            av == strings_view(args@),
            joined@ == described_args(av.take(i as int)),
        decreases args.len() - i,
    {
        if i > 0 {
            joined.push_str(" ");
        }
        let q = quote_os_str(args[i].as_str());
        joined.push_str(q.as_str());
        proof {
            let t = av.take(i + 1);
            assert(t.drop_last() =~= av.take(i as int));
            assert(t.last() == args@[i as int]@);
            if i == 0 {
                assert(joined@ =~= described_arg(t[0]));
            }
        }
        i = i + 1;
    }
    assert(av.take(args.len() as int) =~= av);
    if joined.as_str().is_empty() {
        owned(program)
    } else {
        let mut r = owned(program);
        r.push_str(" ");
        r.push_str(joined.as_str());
        r
    }
}

/// What a failed command's error output adds to its message: `: ` and the
/// trimmed output, or nothing when there is none.
pub open spec fn stderr_tail(stderr: Seq<char>) -> Seq<char> {
    if trim(stderr).len() == 0 {
        seq![]
    } else {
        ": "@ + trim(stderr)
    }
}

pub fn stderr_summary(stderr: &str) -> (r: String)
    ensures
        r@ == stderr_tail(stderr@),
{
    let t = trim_str(stderr);
    if t.as_str().is_empty() {
        String::new()
    } else {
        let mut r = owned(": ");
        r.push_str(t.as_str());
        r
    }
}

/// Why running a command failed; `source` and `status` are the messages of
/// the operating system's error and of the exit status.
#[derive(Debug)]
pub enum CommandError {
    Spawn { command: String, source: String },
    Failed { command: String, status: String, stderr: String },
}

impl CommandError {
    pub open spec fn message_of(&self) -> Seq<char> {
        match self {
            CommandError::Spawn { command, source } => "failed to start `"@ + command@ + "`: "@ + source@,
            CommandError::Failed { command, status, stderr } => "`"@ + command@ + "` exited with "@ + status@ + stderr@,
        }
    }

    pub fn message(&self) -> (r: String)
        ensures
            r@ == self.message_of(),
    {
        match self {
            CommandError::Spawn { command, source } => {
                let mut r = owned("failed to start `");
                r.push_str(command.as_str());
                r.push_str("`: ");
                r.push_str(source.as_str());
                r
            },
            CommandError::Failed { command, status, stderr } => {
                let mut r = owned("`");
                r.push_str(command.as_str());
                r.push_str("` exited with ");
                r.push_str(status.as_str());
                r.push_str(stderr.as_str());
                r
            },
        }
    }
}

/// What a command that ran to the end amounts to: success, or the failure
/// with its description, exit status and error output.
pub fn check_result(command: &str, success: bool, status_text: &str, stderr: &str) -> (r: Result<(), CommandError>)
    ensures
        success ==> r is Ok,
        !success ==> (r matches Err(CommandError::Failed { command: c, status, stderr: s }) && c@ == command@ && status@ == status_text@
            && s@ == stderr_tail(stderr@)),
{
    if success {
        Ok(())
    } else {
        Err(CommandError::Failed { command: owned(command), status: owned(status_text), stderr: stderr_summary(stderr) })
    }
}

} // verus!
