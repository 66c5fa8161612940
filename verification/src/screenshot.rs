//! Screenshots of an app's windows, taken as a recipe asks.
use crate::result::FailureReason;
use crate::text::{cat3, lossy};
use crate::text;
use vstd::prelude::*;

pub mod app_ref;
pub mod desktop;
pub mod gnome;
pub mod helper;
pub mod images;
pub mod manifest;
pub mod recipe;
pub mod run;
pub mod setup;
pub mod workflow;
pub mod workspace;

verus! {

/// Why a capture failed.
#[derive(Debug)]
pub struct CaptureFailure {
    pub reason: FailureReason,
    pub message: String,
}

/// Something that went wrong in a capture. Its reason may not be known where it is noticed.
#[derive(Debug)]
pub struct CaptureError {
    pub reason: Option<FailureReason>,
    pub message: String,
}

impl CaptureError {
    pub open spec fn says(&self, reason: Option<FailureReason>, message: Seq<char>) -> bool {
        self.reason == reason && self.message@ == message
    }

    /// An error whose reason is known.
    pub fn failure(reason: FailureReason, message: String) -> (out: Self)
        ensures
            out.says(Some(reason), message@),
            out.message == message,
    {
        CaptureError { reason: Some(reason), message }
    }

    /// An error whose reason is not known.
    pub fn plain(message: String) -> (out: Self)
        ensures
            out.says(None, message@),
            out.message == message,
    {
        CaptureError { reason: None, message }
    }

    /// The error, told with what was being done.
    pub fn context(self, doing: &str) -> (out: Self)
        ensures
            out.says(self.reason, doing@ + ": "@ + self.message@),
    {
        CaptureError {
            reason: self.reason,
            message: cat3(doing, ": ", self.message.as_str()),
        }
    }

    /// The error with `reason`, where it has none.
    pub fn or_reason(self, reason: FailureReason) -> (out: Self)
        ensures
            out.message == self.message,
            out.reason == Some(
                match self.reason {
                    Some(known) => known,
                    None => reason,
                },
            ),
    {
        CaptureError {
            reason: Some(
                match self.reason {
                    Some(known) => known,
                    None => reason,
                },
            ),
            message: self.message,
        }
    }

    /// What is reported in the end.
    pub fn settle(self) -> (out: CaptureFailure)
        ensures
            out.message == self.message,
            out.reason == match self.reason {
                Some(known) => known,
                None => FailureReason::InternalError,
            },
    {
        CaptureFailure {
            reason: match self.reason {
                Some(known) => known,
                None => FailureReason::InternalError,
            },
            message: self.message,
        }
    }
}

/// A tool that ran to its end.
#[derive(Debug)]
pub struct ToolRun {
    pub success: bool,
    pub stdout: Vec<u8>,
    pub stderr: Vec<u8>,
}

/// What is wrong with a tool's run, if anything is. `Err` tells that it did not run to its end,
/// and `doing` what it was run for.
pub open spec fn run_fault(run: Result<ToolRun, String>, doing: Seq<char>) -> Option<Seq<char>> {
    match run {
        Err(error) => Some(error@),
        Ok(done) => if done.success {
            None
        } else {
            Some(doing + ": "@ + text::utf8_lossy(done.stderr@))
        },
    }
}

/// The run of a tool that succeeded.
pub fn required_run(run: Result<ToolRun, String>, doing: &str) -> (out: Result<
    ToolRun,
    CaptureError,
>)
    ensures
        match run_fault(run, doing@) {
            Some(fault) => out matches Err(error) && error.says(None, fault),
            None => out matches Ok(done) && run == Ok::<ToolRun, String>(done) && done.success,
        },
{
    match run {
        Err(error) => Err(CaptureError::plain(error)),
        Ok(done) => if done.success {
            Ok(done)
        } else {
            Err(CaptureError::plain(cat3(doing, ": ", lossy(&done.stderr).as_str())))
        },
    }
}

} // verus!
