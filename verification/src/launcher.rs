//! Opening clips and URLs with the desktop's default application and
//! running commands in a terminal: which programs are tried, in what order,
//! with which arguments, and what the user is told when none works.
use vstd::prelude::*;
use crate::config::strings_view;
use crate::platform::Platform;
use crate::text::{chars_eq_str, chars_of, owned, trim, trim_str};

verus! {

/// A program to try and its arguments before the target.
#[derive(Debug)]
pub struct LaunchCandidate {
    pub program: &'static str,
    pub args: Vec<&'static str>,
}

/// What happened when a candidate was started.
#[derive(Debug)]
pub enum SpawnOutcome {
    Spawned,
    NotFound,
    Failed(String),
}

/// One candidate that was tried.
#[derive(Debug)]
pub struct LaunchAttempt {
    pub program: String,
    pub outcome: SpawnOutcome,
}

/// How opening a clip, a URL or a command goes on a platform: the programs
/// to try in order, or why the platform cannot do it.
#[derive(Debug)]
pub enum LaunchPlan {
    Try(Vec<LaunchCandidate>),
    Unsupported(String),
}

fn candidate(program: &'static str, args: Vec<&'static str>) -> (r: LaunchCandidate)
    ensures
        r.program == program,
        r.args@ == args@,
{
    LaunchCandidate { program, args }
}

/// The desktop openers of a platform: `xdg-open` then `gio open` on Linux,
/// `open` on macOS, `cmd /C start ""` on Windows.
pub fn desktop_openers(platform: Platform) -> (r: Option<Vec<LaunchCandidate>>)
    ensures
        platform == Platform::Other <==> r is None,
        r matches Some(v) ==> v@.len() >= 1,
        platform == Platform::Linux ==> (r matches Some(v) && v@.len() == 2 && v@[0].program@ == "xdg-open"@ && v@[0].args@.len() == 0
            && v@[1].program@ == "gio"@ && v@[1].args@.len() == 1 && v@[1].args@[0]@ == "open"@),
        platform == Platform::MacOs ==> (r matches Some(v) && v@.len() == 1 && v@[0].program@ == "open"@ && v@[0].args@.len() == 0),
        platform == Platform::Windows ==> (r matches Some(v) && v@.len() == 1 && v@[0].program@ == "cmd"@ && v@[0].args@.len() == 3
            && v@[0].args@[0]@ == "/C"@ && v@[0].args@[1]@ == "start"@ && v@[0].args@[2]@ == ""@),
{
    match platform {
        Platform::Linux => {
            let mut v: Vec<LaunchCandidate> = Vec::new();
            v.push(candidate("xdg-open", Vec::new()));
            let mut a: Vec<&'static str> = Vec::new();
            a.push("open");
            v.push(candidate("gio", a));
            Some(v)
        },
        Platform::MacOs => {
            let mut v: Vec<LaunchCandidate> = Vec::new();
            v.push(candidate("open", Vec::new()));
            Some(v)
        },
        Platform::Windows => {
            let mut a: Vec<&'static str> = Vec::new();
            a.push("/C");
            a.push("start");
            a.push("");
            let mut v: Vec<LaunchCandidate> = Vec::new();
            v.push(candidate("cmd", a));
            Some(v)
        },
        Platform::Other => None,
    }
}

/// Opening a URL: refused when blank; else the platform's openers for the
/// trimmed URL.
pub fn open_url(url: &str, platform: Platform) -> (r: Result<(String, LaunchPlan), String>)
    ensures
        trim(url@).len() == 0 ==> (r matches Err(m) && m@ == "URL is empty"@),
        trim(url@).len() != 0 && platform != Platform::Other ==> (r matches Ok((t, LaunchPlan::Try(v))) && t@ == trim(url@) && v@.len() >= 1),
        trim(url@).len() != 0 && platform == Platform::Other ==> (r matches Ok((t, LaunchPlan::Unsupported(m))) && t@ == trim(url@)
            && m@ == "Opening URLs is not supported on this platform for "@ + trim(url@)),
{
    let t = trim_str(url);
    if t.as_str().is_empty() {
        return Err(owned("URL is empty"));
    }
    match desktop_openers(platform) {
        Some(v) => Ok((t, LaunchPlan::Try(v))),
        None => {
            let mut m = owned("Opening URLs is not supported on this platform for ");
            m.push_str(t.as_str());
            Ok((t, LaunchPlan::Unsupported(m)))
        },
    }
}

/// Opening a clip file: refused when the file does not exist; else the
/// platform's openers.
pub fn open_path(path: &str, exists: bool, platform: Platform) -> (r: Result<LaunchPlan, String>)
    ensures
        !exists ==> (r matches Err(m) && m@ == "Clip file does not exist: "@ + path@),
        exists && platform != Platform::Other ==> (r matches Ok(LaunchPlan::Try(v)) && v@.len() >= 1),
        exists && platform == Platform::Other ==> (r matches Ok(LaunchPlan::Unsupported(m))
            && m@ == "Opening clips is not supported on this platform for "@ + path@),
{
    if !exists {
        let mut m = owned("Clip file does not exist: ");
        m.push_str(path);
        return Err(m);
    }
    match desktop_openers(platform) {
        Some(v) => Ok(LaunchPlan::Try(v)),
        None => {
            let mut m = owned("Opening clips is not supported on this platform for ");
            m.push_str(path);
            Ok(LaunchPlan::Unsupported(m))
        },
    }
}

/// What the user is told after the openers were tried on `target`: nothing
/// when one started; the error of the first that failed otherwise than by
/// being missing; else that the last one is not installed.
pub open spec fn opener_result(attempts: Seq<(Seq<char>, SpawnOutcomeView)>, target: Seq<char>, last_missing: Option<Seq<char>>) -> Result<(), Seq<char>>
    decreases attempts.len(),
{
    if attempts.len() == 0 {
        Err(match last_missing {
            Some(p) => p + " is not installed"@,
            None => "No desktop opener is available for "@ + target,
        })
    } else {
        match attempts[0].1 {
            SpawnOutcomeView::Spawned => Ok(()),
            SpawnOutcomeView::Failed(e) => Err("Failed to launch "@ + attempts[0].0 + " for "@ + target + ": "@ + e),
            SpawnOutcomeView::NotFound => opener_result(attempts.drop_first(), target, Some(attempts[0].0)),
        }
    }
}

pub enum SpawnOutcomeView {
    Spawned,
    NotFound,
    Failed(Seq<char>),
}

pub open spec fn attempt_view(a: LaunchAttempt) -> (Seq<char>, SpawnOutcomeView) {
    (a.program@, match a.outcome {
        SpawnOutcome::Spawned => SpawnOutcomeView::Spawned,
        SpawnOutcome::NotFound => SpawnOutcomeView::NotFound,
        SpawnOutcome::Failed(e) => SpawnOutcomeView::Failed(e@),
    })
}

/// The result of opening `target` after the attempts made, in order.
pub fn finish_open_attempts(attempts: &Vec<LaunchAttempt>, target: &str) -> (r: Result<(), String>)
    ensures
        match (r, opener_result(attempts@.map_values(|a: LaunchAttempt| attempt_view(a)), target@, None)) {
            (Ok(()), Ok(())) => true,
            (Err(x), Err(y)) => x@ == y,
            _ => false,
        },
{
    let ghost av = attempts@.map_values(|a: LaunchAttempt| attempt_view(a));
    let mut last_missing: Option<String> = None;
    let mut i: usize = 0;
    assert(av.skip(0) =~= av);
    while i < attempts.len()
        invariant
            i <= attempts.len(),
            av == attempts@.map_values(|a: LaunchAttempt| attempt_view(a)),
            opener_result(av, target@, None) == opener_result(av.skip(i as int), target@, crate::config::opt_view(last_missing)),
        decreases attempts.len() - i,
    {
        let ghost rest = av.skip(i as int);
        assert(rest[0] == attempt_view(attempts@[i as int]));
        assert(rest.drop_first() =~= av.skip(i + 1));
        match &attempts[i].outcome {
            SpawnOutcome::Spawned => {
                return Ok(());
            },
            SpawnOutcome::Failed(e) => {
                let mut m = owned("Failed to launch ");
                m.push_str(attempts[i].program.as_str());
                m.push_str(" for ");
                m.push_str(target);
                m.push_str(": ");
                m.push_str(e.as_str());
                return Err(m);
            },
            SpawnOutcome::NotFound => {
                last_missing = Some(owned(attempts[i].program.as_str()));
            },
        }
        i = i + 1;
    }
    assert(av.skip(attempts.len() as int) =~= Seq::<(Seq<char>, SpawnOutcomeView)>::empty());
    match last_missing {
        Some(p) => {
            let mut m = p;
            m.push_str(" is not installed");
            Err(m)
        },
        None => {
            let mut m = owned("No desktop opener is available for ");
            m.push_str(target);
            Err(m)
        },
    }
}

/// The terminals that take the command as one argument rather than after
/// `sh -lc`.
pub open spec fn takes_command_directly(terminal: Seq<char>) -> bool {
    terminal == "kitty"@ || terminal == "footclient"@ || terminal == "foot"@
}

/// The arguments a terminal is started with to run `display` in a shell.
pub fn terminal_arguments(terminal: &str, terminal_args: &Vec<&str>, display: &str) -> (r: Vec<String>)
    ensures
        strings_view(r@) == terminal_args@.map_values(|a: &str| a@) + (if takes_command_directly(terminal@) {
            seq![display@]
        } else {
            seq!["sh"@, "-lc"@, display@]
        }),
{
    let mut r: Vec<String> = Vec::new();
    let mut i: usize = 0;
    while i < terminal_args.len()
        invariant
            i <= terminal_args.len(),
            r@.len() == i,
            forall|k: int| 0 <= k < i ==> (#[trigger] r@[k])@ == terminal_args@[k]@,
        decreases terminal_args.len() - i,
    {
        r.push(owned(terminal_args[i]));
        i = i + 1;
    }
    assert(strings_view(r@) =~= terminal_args@.map_values(|a: &str| a@));
    let ghost base = strings_view(r@);
    let t = chars_of(terminal);
    if chars_eq_str(&t, "kitty") || chars_eq_str(&t, "footclient") || chars_eq_str(&t, "foot") {
        r.push(owned(display));
        assert(strings_view(r@) =~= base + seq![display@]);
    } else {
        r.push(owned("sh"));
        r.push(owned("-lc"));
        r.push(owned(display));
        assert(strings_view(r@) =~= base + seq!["sh"@, "-lc"@, display@]);
    }
    r
}

/// Running a command: refused when the program is blank.
pub fn launch_command(program: &str) -> (r: Result<(), String>)
    ensures
        trim(program@).len() == 0 <==> (r matches Err(m) && m@ == "Command program is empty"@),
        trim(program@).len() != 0 <==> r is Ok,
{
    let t = trim_str(program);
    if t.as_str().is_empty() {
        Err(owned("Command program is empty"))
    } else {
        Ok(())
    }
}

/// What the user is told when no terminal ran `display` and running the
/// program directly failed with `error`.
pub fn direct_launch_failure(display: &str, last_missing: Option<&str>, error: &str) -> (r: String)
    ensures
        r@ == "Failed to run `"@ + display@ + "` directly after "@ + (match last_missing {
            Some(t) => t@ + " is not installed"@,
            None => "no terminal launcher was available"@,
        }) + ": "@ + error@,
{
    let mut r = owned("Failed to run `");
    r.push_str(display);
    r.push_str("` directly after ");
    match last_missing {
        Some(t) => {
            r.push_str(t);
            r.push_str(" is not installed");
        },
        None => {
            r.push_str("no terminal launcher was available");
        },
    }
    r.push_str(": ");
    r.push_str(error);
    r
}

} // verus!
