//! What a run reports.
use crate::text::owned;
use vstd::prelude::*;

verus! {

/// The outcome of a run, as it is written to `result.json`.
#[derive(Debug, Clone, PartialEq, Eq)]
pub struct RunResult {
    pub schema_version: u8,
    pub status: RunStatus,
    pub app_ref: Option<String>,
    pub artifact: Artifact,
    pub timings_ms: Timings,
    pub screenshots: Vec<String>,
    pub failure: Option<Failure>,
}

impl RunResult {
    /// A result says why a run failed exactly when it failed, and names the app of a run that
    /// passed.
    pub open spec fn wf(&self) -> bool {
        &&& self.schema_version == 1
        &&& (self.status == RunStatus::Passed) == (self.failure is None)
        &&& self.status == RunStatus::Passed ==> self.app_ref is Some
    }

    pub fn passed(
        app_ref: String,
        artifact: Artifact,
        timings_ms: Timings,
        screenshots: Vec<String>,
    ) -> (out: Self)
        ensures
            out.wf(),
            out.status == RunStatus::Passed,
            out.app_ref == Some(app_ref),
            out.artifact == artifact,
            out.timings_ms == timings_ms,
            out.screenshots == screenshots,
            out.failure is None,
    {
        RunResult {
            schema_version: 1,
            status: RunStatus::Passed,
            app_ref: Some(app_ref),
            artifact,
            timings_ms,
            screenshots,
            failure: None,
        }
    }

    pub fn failed(
        app_ref: Option<String>,
        artifact: Artifact,
        timings_ms: Timings,
        screenshots: Vec<String>,
        reason: FailureReason,
        message: String,
    ) -> (out: Self)
        ensures
            out.wf(),
            out.status == RunStatus::Failed,
            out.app_ref == app_ref,
            out.artifact == artifact,
            out.timings_ms == timings_ms,
            out.screenshots == screenshots,
            out.failure == Some(Failure { reason, message }),
    {
        RunResult {
            schema_version: 1,
            status: RunStatus::Failed,
            app_ref,
            artifact,
            timings_ms,
            screenshots,
            failure: Some(Failure { reason, message }),
        }
    }

    pub fn is_passed(&self) -> (yes: bool)
        ensures
            yes == (self.status == RunStatus::Passed),
    {
        self.status == RunStatus::Passed
    }
}

#[derive(Debug, Clone, Copy, PartialEq, Eq, Structural)]
pub enum RunStatus {
    Passed,
    Failed,
}

/// The word for a status in `result.json`.
pub open spec fn status_name(status: RunStatus) -> Seq<char> {
    match status {
        RunStatus::Passed => "passed"@,
        RunStatus::Failed => "failed"@,
    }
}

impl RunStatus {
    /// The word for the status in `result.json`.
    pub fn name(&self) -> (out: &'static str)
        ensures
            out@ == status_name(*self),
    {
        match self {
            RunStatus::Passed => "passed",
            RunStatus::Failed => "failed",
        }
    }
}

/// The build that a run is about.
#[derive(Debug, Clone, PartialEq, Eq)]
pub struct Artifact {
    pub kind: ArtifactKind,
    pub path: String,
}

impl Artifact {
    /// The bundle whose path is displayed as `path`.
    pub fn bundle(path: &str) -> (out: Self)
        ensures
            out.kind == ArtifactKind::Bundle,
            out.path@ == path@,
    {
        Artifact { kind: ArtifactKind::Bundle, path: owned(path) }
    }

    /// The repository whose path is displayed as `path`.
    pub fn repo(path: &str) -> (out: Self)
        ensures
            out.kind == ArtifactKind::Repo,
            out.path@ == path@,
    {
        Artifact { kind: ArtifactKind::Repo, path: owned(path) }
    }
}

#[derive(Debug, Clone, Copy, PartialEq, Eq, Structural)]
pub enum ArtifactKind {
    Bundle,
    Repo,
}

/// The word for a kind of artifact in `result.json`.
pub open spec fn kind_name(kind: ArtifactKind) -> Seq<char> {
    match kind {
        ArtifactKind::Bundle => "bundle"@,
        ArtifactKind::Repo => "repo"@,
    }
}

impl ArtifactKind {
    /// The word for the kind in `result.json`.
    pub fn name(&self) -> (out: &'static str)
        ensures
            out@ == kind_name(*self),
    {
        match self {
            ArtifactKind::Bundle => "bundle",
            ArtifactKind::Repo => "repo",
        }
    }
}

/// How long the stages of a run took, in milliseconds.
#[derive(Debug, Clone, Copy, PartialEq, Eq, Structural)]
pub struct Timings {
    pub install: Option<u128>,
    pub launch_to_window: Option<u128>,
    pub total: u128,
}

impl Default for Timings {
    fn default() -> (out: Self)
        ensures
            out.install is None,
            out.launch_to_window is None,
            out.total == 0,
    {
        Timings { install: None, launch_to_window: None, total: 0 }
    }
}

/// Why a run failed.
#[derive(Debug, Clone, PartialEq, Eq)]
pub struct Failure {
    pub reason: FailureReason,
    pub message: String,
}

#[derive(Debug, Clone, Copy, PartialEq, Eq, Structural)]
pub enum FailureReason {
    InstallFailed,
    DependencyFailed,
    DisplayStartFailed,
    DisplayExited,
    LaunchFailed,
    WindowTimeout,
    EarlyExit,
    ScreenshotFailed,
    AppErrorWindow,
    InternalError,
}

/// The word for a reason in `result.json`.
pub open spec fn reason_name(reason: FailureReason) -> Seq<char> {
    match reason {
        FailureReason::InstallFailed => "install_failed"@,
        FailureReason::DependencyFailed => "dependency_failed"@,
        FailureReason::DisplayStartFailed => "display_start_failed"@,
        FailureReason::DisplayExited => "display_exited"@,
        FailureReason::LaunchFailed => "launch_failed"@,
        FailureReason::WindowTimeout => "window_timeout"@,
        FailureReason::EarlyExit => "early_exit"@,
        FailureReason::ScreenshotFailed => "screenshot_failed"@,
        FailureReason::AppErrorWindow => "app_error_window"@,
        FailureReason::InternalError => "internal_error"@,
    }
}

impl FailureReason {
    /// The word for the reason in `result.json`.
    pub fn name(&self) -> (out: &'static str)
        ensures
            out@ == reason_name(*self),
    {
        match self {
            FailureReason::InstallFailed => "install_failed",
            FailureReason::DependencyFailed => "dependency_failed",
            FailureReason::DisplayStartFailed => "display_start_failed",
            FailureReason::DisplayExited => "display_exited",
            FailureReason::LaunchFailed => "launch_failed",
            FailureReason::WindowTimeout => "window_timeout",
            FailureReason::EarlyExit => "early_exit",
            FailureReason::ScreenshotFailed => "screenshot_failed",
            FailureReason::AppErrorWindow => "app_error_window",
            FailureReason::InternalError => "internal_error",
        }
    }
}

/// Different reasons have different words.
pub proof fn reason_names_are_distinct(a: FailureReason, b: FailureReason)
    requires
        reason_name(a) == reason_name(b),
    ensures
        a == b,
{
    reveal_strlit("install_failed");
    reveal_strlit("dependency_failed");
    reveal_strlit("display_start_failed");
    reveal_strlit("display_exited");
    reveal_strlit("launch_failed");
    reveal_strlit("window_timeout");
    reveal_strlit("early_exit");
    reveal_strlit("screenshot_failed");
    reveal_strlit("app_error_window");
    reveal_strlit("internal_error");
    let x = reason_name(a);
    let y = reason_name(b);
    assert(x.len() == y.len());
    assert(x[0] == y[0]);
    assert(x[1] == y[1]);
    assert(x[2] == y[2]);
}

} // verus!
