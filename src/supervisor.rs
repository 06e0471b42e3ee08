use vstd::prelude::*;

use crate::job::{Job, KeyValue, ResourceLimits};
use crate::text::{decimal, decimal_text, digit_char, digit_text};

verus! {

/// The program that starts a job's command as its owner.
pub const SUDO_PATH: &'static str = "/usr/bin/sudo";

/// The shell that runs a job's command line.
pub const SHELL_PATH: &'static str = "/bin/sh";

/// The working directory of every run, readable by all users.
pub const WORK_DIR: &'static str = "/tmp";

/// The user a job runs as where it names no owner.
pub const SERVICE_USER: &'static str = "lunasched";

/// The arguments joined by single spaces.
pub open spec fn joined(args: Seq<String>) -> Seq<char>
    decreases args.len(),
{
    if args.len() == 0 {
        Seq::<char>::empty()
    } else if args.len() == 1 {
        args[0]@
    } else {
        joined(args.subrange(0, args.len() - 1)) + seq![' '] + args[args.len() - 1]@
    }
}

/// The command followed by its arguments, separated by single spaces.
pub open spec fn command_line_spec(command: Seq<char>, args: Seq<String>) -> Seq<char> {
    if args.len() == 0 {
        command
    } else {
        command + seq![' '] + joined(args)
    }
}

/// The shell command line of a job.
pub fn command_line(job: &Job) -> (r: String)
    ensures
        r@ == command_line_spec(job.command@, job.args@),
{
    let mut r = job.command.clone();
    let n = job.args.len();
    if n == 0 {
        return r;
    }
    proof {
        reveal_strlit(" ");
    }
    r.append(" ");
    r.append(job.args[0].as_str());
    proof {
        assert(job.args@.subrange(0, 1).len() == 1);
        assert(joined(job.args@.subrange(0, 1)) == job.args@[0]@);
    }
    let mut i: usize = 1;
    while i < n
        invariant
            n == job.args@.len(),
            1 <= i <= n,
            r@ == job.command@ + seq![' '] + joined(job.args@.subrange(0, i as int)),
        decreases n - i,
    {
        proof {
            reveal_strlit(" ");
        }
        r.append(" ");
        r.append(job.args[i].as_str());
        proof {
            let s = job.args@.subrange(0, i + 1);
            assert(s[s.len() - 1] == job.args@[i as int]);
            assert(s.subrange(0, s.len() - 1) =~= job.args@.subrange(0, i as int));
            assert(r@ =~= job.command@ + seq![' '] + joined(s));
        }
        i = i + 1;
    }
    proof {
        assert(job.args@.subrange(0, n as int) =~= job.args@);
    }
    r
}

/// The user a job runs as: its owner, or the service user where it has none.
pub open spec fn run_user_spec(owner: Seq<char>) -> Seq<char> {
    if owner.len() == 0 {
        SERVICE_USER@
    } else {
        owner
    }
}

pub fn run_user(job: &Job) -> (r: String)
    ensures
        r@ == run_user_spec(job.owner@),
{
    if job.owner.as_str().is_empty() {
        SERVICE_USER.to_owned()
    } else {
        job.owner.clone()
    }
}

/// The arguments given to `SUDO_PATH`: run the shell as the job's user, on
/// the job's command line.
pub fn spawn_args(job: &Job) -> (r: Vec<String>)
    ensures
        r@.len() == 5,
        r@[0]@ == "-u"@,
        r@[1]@ == run_user_spec(job.owner@),
        r@[2]@ == SHELL_PATH@,
        r@[3]@ == "-c"@,
        r@[4]@ == command_line_spec(job.command@, job.args@),
{
    let mut r: Vec<String> = Vec::new();
    r.push("-u".to_owned());
    r.push(run_user(job));
    r.push(SHELL_PATH.to_owned());
    r.push("-c".to_owned());
    r.push(command_line(job));
    r
}

/// The output of a run as history keeps it.
pub fn combined_output(stdout: &str, stderr: &str) -> (r: String)
    ensures
        r@ == "Stdout:\n"@ + stdout@ + "\nStderr:\n"@ + stderr@,
{
    let mut r = "Stdout:\n".to_owned();
    r.append(stdout);
    r.append("\nStderr:\n");
    r.append(stderr);
    r
}

/// Where the enforcement of a timeout stands.
#[derive(Debug, Clone, Copy, PartialEq, Eq, Structural)]
pub enum TimeoutState {
    Start,
    Waited,
    Terminated,
    GraceOver,
    Finished,
}

/// What the enforcer does next.
#[derive(Debug, Clone, Copy, PartialEq, Eq, Structural)]
pub enum TimeoutAction {
    Sleep(u64),
    SendTerm,
    SendKill,
    Stop,
}

/// One step of timeout enforcement: wait out the timeout; if the process is
/// still alive, send TERM, wait two seconds, and send KILL if it is still
/// alive. `alive` is whether the process exists now.
pub open spec fn timeout_next(state: TimeoutState, timeout_seconds: u64, alive: bool) -> (
    TimeoutState,
    TimeoutAction,
) {
    match state {
        TimeoutState::Start => (TimeoutState::Waited, TimeoutAction::Sleep(timeout_seconds)),
        TimeoutState::Waited => if alive {
            (TimeoutState::Terminated, TimeoutAction::SendTerm)
        } else {
            (TimeoutState::Finished, TimeoutAction::Stop)
        },
        TimeoutState::Terminated => (TimeoutState::GraceOver, TimeoutAction::Sleep(2)),
        TimeoutState::GraceOver => if alive {
            (TimeoutState::Finished, TimeoutAction::SendKill)
        } else {
            (TimeoutState::Finished, TimeoutAction::Stop)
        },
        TimeoutState::Finished => (TimeoutState::Finished, TimeoutAction::Stop),
    }
}

pub fn timeout_step(state: TimeoutState, timeout_seconds: u64, alive: bool) -> (r: (
    TimeoutState,
    TimeoutAction,
))
    ensures
        r == timeout_next(state, timeout_seconds, alive),
{
    match state {
        TimeoutState::Start => (TimeoutState::Waited, TimeoutAction::Sleep(timeout_seconds)),
        TimeoutState::Waited => if alive {
            (TimeoutState::Terminated, TimeoutAction::SendTerm)
        } else {
            (TimeoutState::Finished, TimeoutAction::Stop)
        },
        TimeoutState::Terminated => (TimeoutState::GraceOver, TimeoutAction::Sleep(2)),
        TimeoutState::GraceOver => if alive {
            (TimeoutState::Finished, TimeoutAction::SendKill)
        } else {
            (TimeoutState::Finished, TimeoutAction::Stop)
        },
        TimeoutState::Finished => (TimeoutState::Finished, TimeoutAction::Stop),
    }
}

/// A CPU quota given in thousandths of a core, as a decimal fraction
/// without trailing zeros (`500` reads `0.5`, `1000` reads `1`).
pub open spec fn quota_text(q: u32) -> Seq<char> {
    let whole = decimal((q / 1000) as nat);
    let f = (q % 1000) as nat;
    let d1 = digit_char(f / 100);
    let d2 = digit_char((f / 10) % 10);
    let d3 = digit_char(f % 10);
    if f == 0 {
        whole
    } else if f % 10 != 0 {
        whole + seq!['.', d1, d2, d3]
    } else if (f / 10) % 10 != 0 {
        whole + seq!['.', d1, d2]
    } else {
        whole + seq!['.', d1]
    }
}

pub fn cpu_quota_text(q: u32) -> (r: String)
    ensures
        r@ == quota_text(q),
{
    let mut r = decimal_text((q / 1000) as u64);
    let f = q % 1000;
    if f == 0 {
        return r;
    }
    proof {
        reveal_strlit(".");
    }
    r.append(".");
    r.append(digit_text(f / 100));
    if f % 10 != 0 {
        r.append(digit_text((f / 10) % 10));
        r.append(digit_text(f % 10));
    } else if (f / 10) % 10 != 0 {
        r.append(digit_text((f / 10) % 10));
    }
    proof {
        assert(r@ =~= quota_text(q));
    }
    r
}

/// The environment that exposes a run's advisory limits to its command.
pub fn limit_env(limits: &ResourceLimits) -> (r: Vec<KeyValue>)
    ensures
        r@.len() == (if limits.max_memory_mb is Some {
            1int
        } else {
            0int
        }) + (if limits.cpu_quota is Some {
            1int
        } else {
            0int
        }),
        limits.max_memory_mb matches Some(m) ==> r@[0].key@ == "LUNASCHED_MAX_MEMORY_MB"@
            && r@[0].value@ == decimal(m as nat),
        limits.cpu_quota matches Some(q) ==> r@[r@.len() - 1].key@ == "LUNASCHED_CPU_QUOTA"@
            && r@[r@.len() - 1].value@ == quota_text(q),
{
    let mut r: Vec<KeyValue> = Vec::new();
    match limits.max_memory_mb {
        Some(m) => {
            r.push(KeyValue { key: "LUNASCHED_MAX_MEMORY_MB".to_owned(), value: decimal_text(m) });
        },
        None => {},
    }
    match limits.cpu_quota {
        Some(q) => {
            r.push(KeyValue { key: "LUNASCHED_CPU_QUOTA".to_owned(), value: cpu_quota_text(q) });
        },
        None => {},
    }
    r
}

} // verus!
