//! Time budgets of a run, and what becomes of the tools that it starts.
use crate::result::FailureReason;
use crate::session::SessionError;
use crate::text::{cat2, cat3, lossy, trim};
use crate::time::{Duration, Instant};
use crate::{text, time};
use vstd::prelude::*;

verus! {

/// How long to wait between two looks at something, in milliseconds.
pub const POLL_INTERVAL_MS: u64 = 50;

/// How long a process group has to end after it was asked to, in milliseconds.
pub const CLEANUP_GRACE_MS: u64 = 200;

/// How long to wait between two looks at a process group that was asked to end, in milliseconds.
pub const CLEANUP_POLL_MS: u64 = 10;

/// How long to wait before the next look at a display that is not ready, in milliseconds.
pub const READINESS_RETRY_MS: u64 = 100;

/// How long to wait before the next screenshot of a session, in milliseconds.
pub const SCREENSHOT_RETRY_MS: u64 = 200;

/// How long an app has to react to a click, in milliseconds.
pub const SETTLE_AFTER_CLICK_MS: u64 = 500;

/// How long to wait before the windows of the desktop are listed again, in milliseconds.
pub const WINDOW_RETRY_MS: u64 = 100;

/// How long to wait before the next picture of a window, in milliseconds.
pub const PICTURE_RETRY_MS: u64 = 150;

/// How long to wait before the helper of the desktop is asked again, in milliseconds.
pub const HELPER_RETRY_MS: u64 = 100;

/// How long the helper has to tell that it is there, in milliseconds.
pub const HELPER_ANSWER_MS: u64 = 1000;

/// How long the last listing of the windows may take, in milliseconds.
pub const FINAL_LOOK_MS: u64 = 1000;

/// How long a tool may take that clears up behind a capture, in milliseconds.
pub const TEARDOWN_TOOL_MS: u64 = 1000;

/// How long the check of the machine may take, in milliseconds.
pub const DEPENDENCY_CHECK_MS: u64 = 5000;

/// How long the desktop has to start when only its start is checked, in milliseconds.
pub const DOCTOR_START_MS: u64 = 30_000;

/// Why there is no time left.
#[derive(Debug, Clone, Copy, PartialEq, Eq, Structural)]
pub enum BudgetError {
    Cancelled,
    Elapsed,
}

/// What is said of the end of a budget.
pub open spec fn budget_message(error: BudgetError) -> Seq<char> {
    match error {
        BudgetError::Cancelled => "run cancelled"@,
        BudgetError::Elapsed => "deadline elapsed"@,
    }
}

impl BudgetError {
    pub fn message(&self) -> (out: &'static str)
        ensures
            out@ == budget_message(*self),
    {
        match self {
            BudgetError::Cancelled => "run cancelled",
            BudgetError::Elapsed => "deadline elapsed",
        }
    }
}

/// The time left before a deadline; a cancelled run has none.
pub open spec fn time_left(cancelled: bool, now: nat, deadline: nat) -> Result<nat, BudgetError> {
    if cancelled {
        Err(BudgetError::Cancelled)
    } else if now >= deadline {
        Err(BudgetError::Elapsed)
    } else {
        Ok((deadline - now) as nat)
    }
}

/// A result whose duration is taken as a number.
pub open spec fn budget_view(budget: Result<Duration, BudgetError>) -> Result<nat, BudgetError> {
    match budget {
        Ok(left) => Ok(left@),
        Err(error) => Err(error),
    }
}

/// The time left before a deadline; a cancelled run has none.
pub fn remaining(cancelled: bool, now: Instant, deadline: Instant) -> (out: Result<
    Duration,
    BudgetError,
>)
    ensures
        budget_view(out) == time_left(cancelled, now@, deadline@),
{
    if cancelled {
        return Err(BudgetError::Cancelled);
    }
    let left = deadline.duration_since(now);
    if left.is_zero() {
        return Err(BudgetError::Elapsed);
    }
    Ok(left)
}

/// How long one read or write on a socket may block: until the deadline, and no longer than the
/// time between two looks.
pub fn io_timeout(cancelled: bool, now: Instant, deadline: Instant) -> (out: Result<
    Duration,
    BudgetError,
>)
    ensures
        budget_view(out) == match time_left(cancelled, now@, deadline@) {
            Ok(left) => Ok(time::smaller(left, time::millis(POLL_INTERVAL_MS as nat))),
            Err(error) => Err(error),
        },
{
    match remaining(cancelled, now, deadline) {
        Ok(left) => Ok(left.shorter(Duration::from_millis(POLL_INTERVAL_MS))),
        Err(error) => Err(error),
    }
}

/// What to do next while waiting.
#[derive(Debug, Clone, Copy, PartialEq, Eq)]
pub enum Wait {
    /// Sleep this long, then look again.
    Sleep(Duration),
    /// The wait is over.
    Over,
    /// There is no time left.
    Stop(BudgetError),
}

/// The next step of a wait until `until` that must not outlast `deadline`.
pub fn sleep_before(cancelled: bool, now: Instant, until: Instant, deadline: Instant) -> (out: Wait)
    ensures
        match time_left(cancelled, now@, deadline@) {
            Err(error) => out == Wait::Stop(error),
            Ok(left) => if now@ < until@ {
                out matches Wait::Sleep(time) && time@ == time::smaller(
                    time::smaller(left, time::millis(POLL_INTERVAL_MS as nat)),
                    (until@ - now@) as nat,
                )
            } else {
                out == Wait::Over
            },
        },
{
    match remaining(cancelled, now, deadline) {
        Err(error) => Wait::Stop(error),
        Ok(left) => {
            let to_go = until.duration_since(now);
            if to_go.is_zero() {
                Wait::Over
            } else {
                Wait::Sleep(left.shorter(Duration::from_millis(POLL_INTERVAL_MS)).shorter(to_go))
            }
        },
    }
}

/// A sleep never outlasts the deadline or the time that was asked for.
pub proof fn sleeps_end_in_time(left: nat, to_go: nat)
    ensures
        time::smaller(time::smaller(left, time::millis(POLL_INTERVAL_MS as nat)), to_go) <= left,
        time::smaller(time::smaller(left, time::millis(POLL_INTERVAL_MS as nat)), to_go) <= to_go,
{
}

/// What to do next about a command that must end before a deadline.
#[derive(Debug, Clone, Copy, PartialEq, Eq, Structural)]
pub enum CommandPoll {
    /// It ended: collect what it wrote.
    Collect,
    /// It runs on: wait and look again.
    Wait,
    /// It has to be stopped.
    Stop(BudgetError),
}

/// What to do next about a command: no time left comes before its end.
pub fn poll_command(cancelled: bool, now: Instant, deadline: Instant, exited: bool) -> (out:
    CommandPoll)
    ensures
        out == match time_left(cancelled, now@, deadline@) {
            Err(error) => CommandPoll::Stop(error),
            Ok(_) => if exited {
                CommandPoll::Collect
            } else {
                CommandPoll::Wait
            },
        },
{
    match remaining(cancelled, now, deadline) {
        Err(error) => CommandPoll::Stop(error),
        Ok(_) => if exited {
            CommandPoll::Collect
        } else {
            CommandPoll::Wait
        },
    }
}

/// What to do next about a process group that was asked to end.
#[derive(Debug, Clone, Copy, PartialEq, Eq, Structural)]
pub enum CleanupPoll {
    /// Look again after a while.
    Wait,
    /// End what may be left of it by force.
    Kill,
}

/// A process group is left alone until its time is up or it is gone.
pub fn poll_cleanup(now: Instant, deadline: Instant, gone: bool) -> (out: CleanupPoll)
    ensures
        out == CleanupPoll::Wait <==> now@ < deadline@ && !gone,
{
    if gone || deadline.duration_since(now).is_zero() {
        CleanupPoll::Kill
    } else {
        CleanupPoll::Wait
    }
}

/// What became of a tool.
#[derive(Debug)]
pub enum ToolOutcome {
    /// It ran and ended; `code` is `None` where a signal ended it.
    Finished { code: Option<i32>, stdout: Vec<u8>, stderr: Vec<u8> },
    /// It is not installed.
    Missing,
    /// It could not be run to its end.
    Broken { error: String },
}

/// What a tool wrote.
#[derive(Debug)]
pub struct ToolOutput {
    pub stdout: Vec<u8>,
    pub stderr: Vec<u8>,
}

/// What is told of a tool that failed: its error output, without white space around it.
pub open spec fn tool_complaint(failed: Seq<char>, stderr: Seq<u8>) -> Seq<char> {
    failed + ": "@ + text::trimmed(text::utf8_lossy(stderr))
}

/// Why a tool's output is missing: `failed` is told of a bad end, `not_run` of one that never came
/// to an end.
pub open spec fn tool_failure(
    outcome: ToolOutcome,
    tool: Seq<char>,
    failed: Seq<char>,
    not_run: Seq<char>,
) -> Option<(FailureReason, Seq<char>)> {
    match outcome {
        ToolOutcome::Finished { code, stdout, stderr } => if code == Some(0i32) {
            None
        } else {
            Some((FailureReason::ScreenshotFailed, tool_complaint(failed, stderr@)))
        },
        ToolOutcome::Missing => Some(
            (FailureReason::DependencyFailed, "missing required tool: "@ + tool),
        ),
        ToolOutcome::Broken { error } => Some(
            (FailureReason::ScreenshotFailed, not_run + ": "@ + error@),
        ),
    }
}

/// The output of a tool that succeeded.
pub fn tool_output(outcome: ToolOutcome, tool: &str, failed: &str, not_run: &str) -> (out: Result<
    ToolOutput,
    SessionError,
>)
    ensures
        match tool_failure(outcome, tool@, failed@, not_run@) {
            Some((reason, message)) => out matches Err(error) && error.says(reason, message),
            None => out matches Ok(output) && outcome == (ToolOutcome::Finished {
                code: Some(0i32),
                stdout: output.stdout,
                stderr: output.stderr,
            }),
        },
{
    match outcome {
        ToolOutcome::Finished { code, stdout, stderr } => match code {
            Some(0) => Ok(ToolOutput { stdout, stderr }),
            _ => Err(
                SessionError::new(
                    FailureReason::ScreenshotFailed,
                    cat3(failed, ": ", trim(lossy(&stderr).as_str()).as_str()),
                ),
            ),
        },
        ToolOutcome::Missing => Err(
            SessionError::new(
                FailureReason::DependencyFailed,
                cat2("missing required tool: ", tool),
            ),
        ),
        ToolOutcome::Broken { error } => Err(
            SessionError::new(
                FailureReason::ScreenshotFailed,
                cat3(not_run, ": ", error.as_str()),
            ),
        ),
    }
}

} // verus!
