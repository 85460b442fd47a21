//! `autonet run`: what the child receives and what its exit means.
//!
//! A launcher, not a supervisor: it resolves an address once, starts the
//! command, waits, and exits with the command's own exit code.

use vstd::prelude::*;

use crate::cli::exit::FAILED;
use crate::select::{url_text, SelectedAddress};

verus! {

/// How long, in milliseconds, the child is given to act on a signal it may
/// not have seen before it is killed.
pub const GRACE_MS: u64 = 5000;

/// How often, in milliseconds, the wait loop wakes to re-check the flag.
pub const POLL_MS: u64 = 50;

/// The variables injected into the child, and nothing else: the bare
/// address, the address ready for a URL, and the URL when a port is known.
pub fn env_vars(selected: &SelectedAddress, port: Option<u16>) -> (vars: Vec<(&'static str, String)>)
    ensures
        vars@.len() == (if port is Some {
            3int
        } else {
            2int
        }),
        vars@[0].0@ == "AUTONET_IP"@ && vars@[0].1@ == selected.ip.text(),
        vars@[1].0@ == "AUTONET_HOST"@ && vars@[1].1@ == selected.ip.url_text(),
        port matches Some(p) ==> vars@[2].0@ == "AUTONET_URL"@ && vars@[2].1@ == url_text(
            "http"@,
            selected.ip.url_text(),
            p,
        ),
{
    let mut vars: Vec<(&'static str, String)> = Vec::new();
    vars.push(("AUTONET_IP", selected.ip.to_text()));
    vars.push(("AUTONET_HOST", selected.url_host()));
    if let Some(port) = port {
        vars.push(("AUTONET_URL", selected.url(port, "http")));
    }
    vars
}

/// The process exit code for a child's reported code: its own code when it
/// fits a byte; 130 (the shell's convention) when it died of a signal after
/// a Ctrl-C; otherwise a failure. A code too large for a byte is a failure,
/// not its low byte.
pub open spec fn child_exit_code(code: Option<i32>, interrupted: bool) -> u8 {
    match code {
        None => if interrupted {
            130
        } else {
            FAILED
        },
        Some(c) => if 0 <= c <= 255 {
            c as u8
        } else {
            FAILED
        },
    }
}

/// Map the child's reported code onto a process exit code.
pub fn exit_code(code: Option<i32>, interrupted: bool) -> (c: u8)
    ensures
        c == child_exit_code(code, interrupted),
{
    match code {
        None => {
            if interrupted {
                130
            } else {
                FAILED
            }
        },
        Some(code) => {
            if 0 <= code && code <= 255 {
                code as u8
            } else {
                FAILED
            }
        },
    }
}

/// What the wait loop does next while the child is still running.
#[derive(Debug, Clone, Copy, PartialEq, Eq, Structural)]
pub enum WaitStep {
    /// Sleep and poll again, with this kill deadline (if any).
    Poll { deadline: Option<u64> },
    /// The grace period is over: kill the child and reap it.
    Kill,
}

/// The wait loop's decision, at `now` milliseconds: once interrupted, a
/// deadline is set a grace period ahead; when it passes, the child is
/// killed. Without an interruption nothing changes.
pub open spec fn wait_step(interrupted: bool, deadline: Option<u64>, now: u64) -> WaitStep {
    if !interrupted {
        WaitStep::Poll { deadline }
    } else {
        match deadline {
            None => WaitStep::Poll {
                deadline: Some(if now + GRACE_MS > u64::MAX {
                    u64::MAX
                } else {
                    (now + GRACE_MS) as u64
                }),
            },
            Some(at) => if now >= at {
                WaitStep::Kill
            } else {
                WaitStep::Poll { deadline }
            },
        }
    }
}

/// Decide what the wait loop does next while the child is still running.
pub fn next_wait_step(interrupted: bool, deadline: Option<u64>, now: u64) -> (s: WaitStep)
    ensures
        s == wait_step(interrupted, deadline, now),
{
    if !interrupted {
        return WaitStep::Poll { deadline };
    }
    match deadline {
        None => WaitStep::Poll { deadline: Some(now.saturating_add(GRACE_MS)) },
        Some(at) => {
            if now >= at {
                WaitStep::Kill
            } else {
                WaitStep::Poll { deadline }
            }
        },
    }
}

} // verus!

verus! {

/// Why a command could not be started: not found, or the system's own
/// reason.
pub fn spawn_error(program: &str, not_found: bool, error: &str) -> (m: String)
    ensures
        not_found ==> m@ == "command not found: "@ + program@,
        !not_found ==> m@ == "cannot run "@ + program@ + ": "@ + error@,
{
    if not_found {
        let mut m = crate::text::owned("command not found: ");
        crate::text::push_str(&mut m, program);
        m
    } else {
        let mut m = crate::text::owned("cannot run ");
        crate::text::push_str(&mut m, program);
        crate::text::push_str(&mut m, ": ");
        crate::text::push_str(&mut m, error);
        m
    }
}

/// The refusal when `run` was given nothing to run.
pub fn no_command() -> (m: String)
    ensures
        m@ == "no command given. Try: autonet run -- npm start"@,
{
    crate::text::owned("no command given. Try: autonet run -- npm start")
}

} // verus!
