//! A capture of screenshots, from its checks to its results.
use crate::cli::{ScreenshotArgs, ScreenshotBundleArgs, ScreenshotRepoArgs};
use crate::installer::{Installation, Progress};
use crate::result::{Artifact, ArtifactKind, FailureReason, RunResult, RunStatus, Timings};
use crate::screenshot::app_ref::AppRef;
use crate::screenshot::gnome::Dependencies;
use crate::screenshot::manifest::{Capture, Manifest};
use crate::screenshot::recipe::Recipe;
use crate::screenshot::setup::check_settings;
use crate::screenshot::workflow::{Phase, WorkEvent, WorkflowRun};
use crate::screenshot::{CaptureError, CaptureFailure};
use crate::text::{cat3, owned};
use crate::time::{Duration, Instant};
use crate::tools::check_path;
use crate::screenshot::{app_ref, manifest, recipe, setup, workflow};
use crate::{installer, text};
use vstd::prelude::*;

verus! {

/// The build whose app is captured.
#[derive(Debug)]
pub enum Source {
    Bundle(String),
    Repo(String, AppRef),
}

/// How far a capture has come.
#[derive(Debug)]
pub enum CaptureStage {
    /// Read the recipe, and look for the build.
    Admission,
    /// Prepare the output.
    Output,
    /// Check the machine.
    Dependencies,
    /// Prepare the private home.
    Workspace,
    /// Install the build.
    Install,
    /// Prepare the app's profile.
    Profile { app_ref: AppRef },
    /// Start the desktop.
    Desktop { app_ref: AppRef },
    /// Start the app.
    Launch { app_ref: AppRef },
    /// Wait for the first window.
    Window,
    /// Follow the recipe.
    Recipe { work: WorkflowRun },
    /// Look whether the desktop and the app are still there.
    Health,
    /// Tell why nothing was done, and report nothing.
    Refused { message: String },
    /// Report how it ended.
    Ended { outcome: Result<(), CaptureFailure> },
}

/// What came of the last thing that a capture did.
#[derive(Debug)]
pub enum CaptureEvent {
    /// The recipe that was read, and whether there is something at the path of the build.
    Admission { recipe: Recipe, exists: bool },
    /// The output is prepared.
    Output,
    Dependencies(Dependencies),
    Workspace(Result<(), CaptureError>),
    /// The installation ended, after this many milliseconds.
    Installed { installation: Installation, took_ms: u128 },
    Profile(Result<(), CaptureError>),
    /// The desktop is there, in this version.
    Desktop(Result<String, CaptureError>),
    Launched(Result<(), CaptureError>),
    /// The first window is there, under this number and this many milliseconds after the app was
    /// started.
    Window { result: Result<u64, CaptureError>, took_ms: u128 },
    /// What came of the last thing that the recipe asked for.
    Work(WorkEvent),
    Health(Result<(), CaptureError>),
}

/// A capture of the screenshots that a recipe asks for.
#[derive(Debug)]
pub struct CaptureRun {
    pub source: Source,
    pub artifact: Artifact,
    /// The recipe, from when it was taken in until it is followed.
    pub recipe: Option<Recipe>,
    pub manifest: Manifest,
    pub timings: Timings,
    pub stage: CaptureStage,
}

/// The ref of the app that was installed, or why a capture cannot go on.
pub open spec fn installed_ref(source: Source, progress: Progress) -> Result<
    Seq<char>,
    (Option<FailureReason>, Seq<char>),
> {
    match progress {
        Progress::Listed { refs } => if refs.len() != 1 {
            Err((None, "bundle must install exactly one application"@))
        } else {
            match app_ref::ref_fault(installer::full_ref(refs[0])) {
                Some(fault) => Err((None, fault)),
                None => Ok(installer::full_ref(refs[0])),
            }
        },
        Progress::Failed { reason, message, .. } => Err((Some(reason), message)),
        _ => match source {
            Source::Repo(_, app_ref) => Ok(app_ref.written()),
            Source::Bundle(_) => Err((None, "bundle must install exactly one application"@)),
        },
    }
}

fn copy_ref(app_ref: &AppRef) -> (out: AppRef)
    ensures
        out.written() == app_ref.written(),
        app_ref.wf() ==> out.wf(),
        out.id@ == app_ref.id@,
{
    AppRef {
        id: owned(app_ref.id.as_str()),
        arch: owned(app_ref.arch.as_str()),
        branch: owned(app_ref.branch.as_str()),
    }
}

impl Source {
    /// The ref that a repository is asked for is one.
    pub open spec fn wf(&self) -> bool {
        *self matches Source::Repo(_, app_ref) ==> app_ref.wf()
    }

    /// The ref of the app that was installed.
    pub fn installed(&self, installation: Installation) -> (out: Result<AppRef, CaptureError>)
        requires
            self.wf(),
        ensures
            match installed_ref(*self, installation@) {
                Ok(written) => out matches Ok(app_ref) && app_ref.wf() && app_ref.written()
                    == written,
                Err((reason, message)) => out matches Err(error) && error.says(reason, message),
            },
    {
        match installation {
            Installation::Listed { refs } => {
                assert(text::views(refs@).len() == refs@.len());
                if refs.len() != 1 {
                    return Err(
                        CaptureError::plain(owned("bundle must install exactly one application")),
                    );
                }
                assert(text::views(refs@)[0] == refs@[0]@);
                match AppRef::from_installed(refs[0].as_str()) {
                    Ok(app_ref) => Ok(app_ref),
                    Err(message) => Err(CaptureError::plain(message)),
                }
            },
            Installation::Failed { error, .. } => Err(
                CaptureError::failure(error.reason, error.message),
            ),
            _ => match self {
                Source::Repo(_, app_ref) => Ok(copy_ref(app_ref)),
                Source::Bundle(_) => Err(
                    CaptureError::plain(owned("bundle must install exactly one application")),
                ),
            },
        }
    }
}

/// The reason that is reported for an error.
pub open spec fn settled_reason(reason: Option<FailureReason>) -> FailureReason {
    match reason {
        Some(known) => known,
        None => FailureReason::InternalError,
    }
}

/// Whether a capture has not installed its app yet.
pub open spec fn before_installation(stage: CaptureStage) -> bool {
    stage is Admission || stage is Output || stage is Dependencies || stage is Workspace
        || stage is Install
}

/// Whether a capture has not started its desktop yet.
pub open spec fn before_desktop(stage: CaptureStage) -> bool {
    before_installation(stage) || stage is Profile || stage is Desktop
}

/// Whether a capture does not have its first window yet.
pub open spec fn before_window(stage: CaptureStage) -> bool {
    before_desktop(stage) || stage is Launch || stage is Window
}

impl CaptureRun {
    /// A capture that has done nothing yet.
    pub open spec fn begins(&self) -> bool {
        &&& self.stage is Admission
        &&& self.recipe is None
        &&& self.is_untouched()
    }

    /// Nothing is known of the app, the desktop, the window or the captures.
    pub open spec fn is_untouched(&self) -> bool {
        &&& self.manifest.begins()
        &&& self.timings == (Timings { install: None, launch_to_window: None, total: 0 })
    }

    /// The ref that a repository is asked for is one, and the recipe is in order from when the
    /// capture was admitted. The manifest has what every manifest has, and tells of the app, the
    /// desktop and the captures once they are there, and no sooner. It blames no step before the
    /// capture ended, nor where it ended well, and all captures lie in their directory.
    pub open spec fn wf(&self) -> bool {
        let passed = self.stage matches CaptureStage::Ended { outcome: Ok(_) };
        let ended = self.stage is Ended || self.stage is Refused;
        &&& self.source.wf()
        &&& self.manifest.standard()
        &&& self.timings.total == 0
        &&& !ended || passed ==> self.manifest.failed_step_index is None
        &&& !ended && !(self.stage is Health) ==> self.manifest.captures@.len() == 0
        &&& before_installation(self.stage) ==> self.manifest.app_ref is None
            && self.timings.install is None
        &&& before_desktop(self.stage) ==> self.manifest.desktop_version is None
        &&& before_window(self.stage) ==> self.timings.launch_to_window is None
        &&& !ended && !before_installation(self.stage) || passed ==> self.manifest.app_ref is Some
            && self.timings.install is Some
        &&& !ended && !before_desktop(self.stage) || passed ==> self.manifest.desktop_version is Some
        &&& !ended && !before_window(self.stage) || passed ==> self.timings.launch_to_window is Some
        &&& self.stage is Refused ==> self.is_untouched()
        &&& workflow::in_the_directory(self.manifest.captures@)
        &&& before_window(self.stage) && !(self.stage is Admission) ==> self.recipe is Some
        &&& !(self.stage is Refused) && self.recipe is Some ==> recipe::recipe_fault(
            self.recipe->0,
        ) is None
        &&& self.stage matches CaptureStage::Recipe { work } ==> {
            &&& work.wf()
            &&& recipe::recipe_fault(work.recipe) is None
            &&& !(work.phase is Finished || work.phase is Failed)
            &&& manifest::heads_agree(work.manifest, self.manifest)
        }
    }

    /// Nothing changed but the stage.
    pub open spec fn keeps(&self, out: &Self) -> bool {
        &&& out.recipe == self.recipe
        &&& self.keeps_all_but_recipe(out)
    }

    /// Nothing changed but the stage and the recipe.
    pub open spec fn keeps_all_but_recipe(&self, out: &Self) -> bool {
        &&& out.source == self.source
        &&& out.artifact == self.artifact
        &&& out.manifest == self.manifest
        &&& out.timings == self.timings
    }

    /// The capture ended with a failure.
    pub open spec fn failed_with(&self, reason: FailureReason, message: Seq<char>) -> bool {
        self.stage matches CaptureStage::Ended { outcome: Err(failure) } && failure.reason == reason
            && failure.message@ == message
    }

    pub open spec fn failed_by(&self, error: CaptureError) -> bool {
        self.failed_with(settled_reason(error.reason), error.message@)
    }

    /// Whether an event is what the capture waits for.
    pub open spec fn awaits(&self, event: CaptureEvent) -> bool {
        match self.stage {
            CaptureStage::Admission => event is Admission,
            CaptureStage::Output => event is Output,
            CaptureStage::Dependencies => event matches CaptureEvent::Dependencies(checked) && (
            checked is Met || checked is Unmet),
            CaptureStage::Workspace => event is Workspace,
            CaptureStage::Install => event matches CaptureEvent::Installed { installation, .. } && (
            installation@ is Listed || installation@ is Installed || installation@ is Failed),
            CaptureStage::Profile { .. } => event is Profile,
            CaptureStage::Desktop { .. } => event is Desktop,
            CaptureStage::Launch { .. } => event is Launched,
            CaptureStage::Window => event is Window,
            CaptureStage::Recipe { work } => event matches CaptureEvent::Work(done) && work.awaits(
                done,
            ),
            CaptureStage::Health => event is Health,
            CaptureStage::Refused { .. } => false,
            CaptureStage::Ended { .. } => false,
        }
    }
}

/// Why a capture does not begin, if it does not: the recipe comes before the build.
pub open spec fn admission_fault(recipe: Recipe, path: Seq<char>, exists: bool) -> Option<
    Seq<char>,
> {
    match recipe::recipe_fault(recipe) {
        Some(fault) => Some(fault),
        None => if exists {
            None
        } else {
            Some("artifact"@ + " '"@ + path + "' does not exist"@)
        },
    }
}

/// Whether a capture may begin. `exists` tells whether there is something at the path of the
/// build.
pub fn check_admission(recipe: &Recipe, path: &str, exists: bool) -> (out: Result<(), String>)
    ensures
        match admission_fault(*recipe, path@, exists) {
            Some(fault) => out matches Err(message) && message@ == fault,
            None => out is Ok,
        },
{
    match recipe.check() {
        Err(message) => Err(message),
        Ok(()) => check_path(path, "artifact", exists),
    }
}

/// A manifest with nothing changed but the app's ref.
pub open spec fn with_ref(before: Manifest, after: Manifest, written: Seq<char>) -> bool {
    &&& after.schema_version == before.schema_version
    &&& after.desktop == before.desktop
    &&& after.desktop_version == before.desktop_version
    &&& after.language == before.language
    &&& after.scale == before.scale
    &&& after.recipe_version == before.recipe_version
    &&& after.failed_step_index == before.failed_step_index
    &&& after.captures == before.captures
    &&& text::option_view(after.app_ref) == Some(written)
}

/// A manifest with nothing changed but the desktop's version.
pub open spec fn with_version(before: Manifest, after: Manifest, version: String) -> bool {
    &&& after.schema_version == before.schema_version
    &&& after.desktop == before.desktop
    &&& after.desktop_version == Some(version)
    &&& after.language == before.language
    &&& after.scale == before.scale
    &&& after.recipe_version == before.recipe_version
    &&& after.failed_step_index == before.failed_step_index
    &&& after.captures == before.captures
    &&& after.app_ref == before.app_ref
}

/// How a capture goes on once what its recipe asked for led to `next`: with the recipe, until that
/// comes to its end or fails.
pub open spec fn recipe_step(run: CaptureRun, next: WorkflowRun, out: CaptureRun) -> bool {
    &&& out.source == run.source
    &&& out.artifact == run.artifact
    &&& out.recipe == run.recipe
    &&& out.timings == run.timings
    &&& match next.phase {
        Phase::Failed { error } => out.manifest == next.manifest && out.failed_by(error),
        Phase::Finished => out.manifest == next.manifest && out.stage is Health,
        _ => out.manifest == run.manifest && out.stage == (CaptureStage::Recipe { work: next }),
    }
}

/// How a capture goes on after an event.
pub open spec fn capture_step(run: CaptureRun, event: CaptureEvent, out: CaptureRun) -> bool {
    match (run.stage, event) {
        (CaptureStage::Admission, CaptureEvent::Admission { recipe, exists }) => {
            &&& run.keeps_all_but_recipe(&out)
            &&& out.recipe == Some(recipe)
            &&& match admission_fault(recipe, run.artifact.path@, exists) {
                Some(fault) => out.stage matches CaptureStage::Refused { message } && message@
                    == fault,
                None => out.stage is Output,
            }
        },
        (CaptureStage::Output, CaptureEvent::Output) => run.keeps(&out) && match setup::settings_fault(
            run.recipe->0,
        ) {
            Some(fault) => out.failed_with(FailureReason::InternalError, fault),
            None => out.stage is Dependencies,
        },
        (CaptureStage::Dependencies, CaptureEvent::Dependencies(checked)) => run.keeps(&out)
            && match checked {
            Dependencies::Unmet { message } => out.failed_with(
                FailureReason::DependencyFailed,
                message@,
            ),
            _ => out.stage is Workspace,
        },
        (CaptureStage::Workspace, CaptureEvent::Workspace(prepared)) => run.keeps(&out)
            && match prepared {
            Ok(_) => out.stage is Install,
            Err(error) => out.failed_by(error),
        },
        (CaptureStage::Install, CaptureEvent::Installed { installation, took_ms }) => {
            &&& out.source == run.source
            &&& out.artifact == run.artifact
            &&& out.recipe == run.recipe
            &&& out.timings == (Timings { install: Some(took_ms), ..run.timings })
            &&& match installed_ref(run.source, installation@) {
                Ok(written) => with_ref(run.manifest, out.manifest, written) && (
                out.stage matches CaptureStage::Profile { app_ref } && app_ref.wf()
                    && app_ref.written() == written),
                Err((reason, message)) => out.manifest == run.manifest && out.failed_with(
                    settled_reason(reason),
                    message,
                ),
            }
        },
        (CaptureStage::Profile { app_ref }, CaptureEvent::Profile(prepared)) => run.keeps(&out)
            && match prepared {
            Ok(_) => out.stage == (CaptureStage::Desktop { app_ref }),
            Err(error) => out.failed_by(error),
        },
        (CaptureStage::Desktop { app_ref }, CaptureEvent::Desktop(started)) => match started {
            Ok(version) => {
                &&& out.source == run.source
                &&& out.artifact == run.artifact
                &&& out.recipe == run.recipe
                &&& out.timings == run.timings
                &&& with_version(run.manifest, out.manifest, version)
                &&& out.stage == (CaptureStage::Launch { app_ref })
            },
            Err(error) => run.keeps(&out) && out.failed_with(
                match error.reason {
                    Some(known) => known,
                    None => FailureReason::DisplayStartFailed,
                },
                error.message@,
            ),
        },
        (CaptureStage::Launch { .. }, CaptureEvent::Launched(launched)) => run.keeps(&out)
            && match launched {
            Ok(_) => out.stage is Window,
            Err(error) => out.failed_by(error),
        },
        (CaptureStage::Window, CaptureEvent::Window { result, took_ms }) => {
            &&& out.source == run.source
            &&& out.artifact == run.artifact
            &&& out.manifest == run.manifest
            &&& match result {
                Ok(selected) => {
                    &&& out.recipe is None
                    &&& out.timings == (Timings {
                        launch_to_window: Some(took_ms),
                        ..run.timings
                    })
                    &&& (out.stage matches CaptureStage::Recipe { work } && work.wf()
                        && work.begins(run.recipe->0, selected, run.manifest))
                },
                Err(error) => out.recipe == run.recipe && out.timings == run.timings
                    && out.failed_by(error),
            }
        },
        (CaptureStage::Recipe { work }, CaptureEvent::Work(done)) => exists|next: WorkflowRun|
            {
                &&& workflow::work_step(work, done, next)
                &&& next.wf()
                &&& #[trigger] recipe_step(run, next, out)
            },
        (CaptureStage::Health, CaptureEvent::Health(health)) => run.keeps(&out) && match health {
            Ok(_) => out.stage == (CaptureStage::Ended { outcome: Ok(()) }),
            Err(error) => out.failed_by(error),
        },
        _ => out == run,
    }
}

fn ended(error: CaptureError) -> (out: CaptureStage)
    ensures
        out matches CaptureStage::Ended { outcome: Err(failure) } && failure.reason
            == settled_reason(error.reason) && failure.message == error.message,
{
    CaptureStage::Ended { outcome: Err(error.settle()) }
}

/// The paths of captures, in order.
pub open spec fn taken_paths(captures: Seq<Capture>) -> Seq<Seq<char>> {
    Seq::new(captures.len(), |i: int| captures[i].path@)
}

fn capture_paths(captures: &Vec<Capture>) -> (out: Vec<String>)
    ensures
        text::views(out@) == taken_paths(captures@),
{
    let mut out: Vec<String> = Vec::new();
    let mut i: usize = 0;
    while i < captures.len()
        invariant
            i <= captures@.len(),
            out@.len() == i,
            forall|k: int| 0 <= k < i ==> (#[trigger] out@[k])@ == captures@[k].path@,
        decreases captures@.len() - i,
    {
        out.push(owned(captures[i].path.as_str()));
        i = i + 1;
    }
    assert(text::views(out@) =~= taken_paths(captures@));
    out
}

/// The result of a capture that ended.
pub open spec fn reports(
    run: CaptureRun,
    total: u128,
    has_candidate: bool,
    result: RunResult,
) -> bool {
    let kept = taken_paths(run.manifest.captures@);
    &&& result.wf()
    &&& result.artifact == run.artifact
    &&& result.timings_ms == (Timings { total, ..run.timings })
    &&& text::option_view(result.app_ref) == text::option_view(run.manifest.app_ref)
    &&& match run.stage {
        CaptureStage::Ended { outcome: Err(failure) } => {
            &&& result.status == RunStatus::Failed
            &&& (result.failure matches Some(told) && told.reason == failure.reason
                && told.message@ == failure.message@)
            &&& text::views(result.screenshots@) == if has_candidate {
                kept.push("logs/last-candidate.png"@)
            } else {
                kept
            }
        },
        _ => result.status == RunStatus::Passed && text::views(result.screenshots@) == kept,
    }
}

impl CaptureRun {
    /// Begins a capture.
    pub fn new(source: Source, artifact: Artifact) -> (out: Self)
        requires
            source.wf(),
        ensures
            out.wf(),
            out.source == source,
            out.artifact == artifact,
            out.begins(),
    {
        CaptureRun {
            source,
            artifact,
            recipe: None,
            manifest: Manifest::new(),
            timings: Timings { install: None, launch_to_window: None, total: 0 },
            stage: CaptureStage::Admission,
        }
    }

    /// Goes on after an event.
    pub fn advance(self, event: CaptureEvent) -> (out: Self)
        requires
            self.wf(),
            self.awaits(event),
        ensures
            capture_step(self, event, out),
            out.wf(),
    {
        let ghost before = self;
        let CaptureRun { source, artifact, recipe, manifest, timings, stage } = self;
        let mut recipe = recipe;
        let mut manifest = manifest;
        let mut timings = timings;
        let ghost mut followed: Option<WorkflowRun> = None;
        let next = match (stage, event) {
            (CaptureStage::Admission, CaptureEvent::Admission { recipe: read, exists }) => {
                let admitted = check_admission(&read, artifact.path.as_str(), exists);
                recipe = Some(read);
                match admitted {
                    Ok(()) => CaptureStage::Output,
                    Err(message) => CaptureStage::Refused { message },
                }
            },
            (CaptureStage::Output, CaptureEvent::Output) => match &recipe {
                Some(read) => match check_settings(read) {
                    Ok(()) => CaptureStage::Dependencies,
                    Err(message) => ended(CaptureError::plain(message)),
                },
                None => CaptureStage::Output,
            },
            (CaptureStage::Dependencies, CaptureEvent::Dependencies(checked)) => match checked {
                Dependencies::Unmet { message } => ended(
                    CaptureError::failure(FailureReason::DependencyFailed, message),
                ),
                _ => CaptureStage::Workspace,
            },
            (CaptureStage::Workspace, CaptureEvent::Workspace(prepared)) => match prepared {
                Ok(()) => CaptureStage::Install,
                Err(error) => ended(error),
            },
            (CaptureStage::Install, CaptureEvent::Installed { installation, took_ms }) => {
                timings.install = Some(took_ms);
                match source.installed(installation) {
                    Ok(app_ref) => {
                        manifest.app_ref = Some(app_ref.to_string());
                        CaptureStage::Profile { app_ref }
                    },
                    Err(error) => ended(error),
                }
            },
            (CaptureStage::Profile { app_ref }, CaptureEvent::Profile(prepared)) => match prepared {
                Ok(()) => CaptureStage::Desktop { app_ref },
                Err(error) => ended(error),
            },
            (CaptureStage::Desktop { app_ref }, CaptureEvent::Desktop(started)) => match started {
                Ok(version) => {
                    manifest.desktop_version = Some(version);
                    CaptureStage::Launch { app_ref }
                },
                Err(error) => ended(error.or_reason(FailureReason::DisplayStartFailed)),
            },
            (CaptureStage::Launch { .. }, CaptureEvent::Launched(launched)) => match launched {
                Ok(()) => CaptureStage::Window,
                Err(error) => ended(error),
            },
            (CaptureStage::Window, CaptureEvent::Window { result, took_ms }) => match result {
                Ok(selected) => {
                    timings.launch_to_window = Some(took_ms);
                    let work = WorkflowRun::new(recipe.unwrap(), selected, &manifest);
                    recipe = None;
                    CaptureStage::Recipe { work }
                },
                Err(error) => ended(error),
            },
            (CaptureStage::Recipe { work }, CaptureEvent::Work(done)) => {
                let ghost was = work;
                let work = work.advance(done);
                proof {
                    followed = Some(work);
                    workflow::recipes_keep_their_captures(was, done, work);
                    workflow::captures_stay_in_the_directory(work);
                }
                let WorkflowRun { recipe: steps, index, selected, phase, manifest: told } = work;
                match phase {
                    Phase::Failed { error } => {
                        manifest = told;
                        ended(error)
                    },
                    Phase::Finished => {
                        manifest = told;
                        CaptureStage::Health
                    },
                    phase => CaptureStage::Recipe {
                        work: WorkflowRun { recipe: steps, index, selected, phase, manifest: told },
                    },
                }
            },
            (CaptureStage::Health, CaptureEvent::Health(health)) => match health {
                Ok(()) => CaptureStage::Ended { outcome: Ok(()) },
                Err(error) => ended(error),
            },
            (stage, _) => stage,
        };
        let out = CaptureRun { source, artifact, recipe, manifest, timings, stage: next };
        proof {
            if let Some(work) = followed {
                assert(recipe_step(before, work, out));
            }
        }
        out
    }

    /// The result of a capture that ended, `total` milliseconds after it began. `has_candidate`
    /// tells whether a last picture was kept among the logs.
    pub fn conclude(&self, total: u128, has_candidate: bool) -> (out: RunResult)
        requires
            self.wf(),
            self.stage is Ended,
        ensures
            reports(*self, total, has_candidate, out),
    {
        let mut screenshots = capture_paths(&self.manifest.captures);
        let artifact = Artifact {
            kind: self.artifact.kind,
            path: self.artifact.path.clone(),
        };
        let timings = Timings {
            install: self.timings.install,
            launch_to_window: self.timings.launch_to_window,
            total,
        };
        let app_ref = match &self.manifest.app_ref {
            Some(written) => Some(owned(written.as_str())),
            None => None,
        };
        match &self.stage {
            CaptureStage::Ended { outcome: Err(failure) } => {
                if has_candidate {
                    let candidate = owned("logs/last-candidate.png");
                    proof {
                        text::lemma_views_push(screenshots@, candidate);
                    }
                    screenshots.push(candidate);
                }
                RunResult::failed(
                    app_ref,
                    artifact,
                    timings,
                    screenshots,
                    failure.reason,
                    owned(failure.message.as_str()),
                )
            },
            _ => RunResult::passed(
                match app_ref {
                    Some(written) => written,
                    None => String::new(),
                },
                artifact,
                timings,
                screenshots,
            ),
        }
    }
}

/// When a capture has to be over.
pub fn capture_deadline(started: Instant, overall_timeout: Duration) -> (out: Result<
    Instant,
    String,
>)
    ensures
        started@ + overall_timeout@ <= u128::MAX ==> (out matches Ok(deadline) && deadline@
            == started@ + overall_timeout@),
        started@ + overall_timeout@ > u128::MAX ==> (out matches Err(message) && message@
            == "overall timeout is too large"@),
{
    match started.checked_add(overall_timeout) {
        Some(deadline) => Ok(deadline),
        None => Err(owned("overall timeout is too large")),
    }
}

/// Begins the capture of the app of a bundle.
pub fn bundle(args: ScreenshotBundleArgs) -> (out: (ScreenshotArgs, CaptureRun))
    ensures
        out.0 == args.common,
        out.1.wf(),
        out.1.begins(),
        out.1.source matches Source::Bundle(path) && path@ == args.bundle@,
        out.1.artifact.kind == ArtifactKind::Bundle,
        out.1.artifact.path@ == args.bundle@,
{
    let artifact = Artifact::bundle(args.bundle.as_str());
    (args.common, CaptureRun::new(Source::Bundle(args.bundle), artifact))
}

/// Begins the capture of an app of a repository.
pub fn repo(args: ScreenshotRepoArgs) -> (out: Result<(ScreenshotArgs, CaptureRun), String>)
    ensures
        match app_ref::ref_fault(args.app_ref@) {
            Some(fault) => out matches Err(message) && message@ == fault,
            None => out matches Ok((common, run)) && common == args.common && run.wf()
                && run.begins() && (run.source matches Source::Repo(path, app_ref)
                && path@ == args.repo@ && app_ref.written() == args.app_ref@) && run.artifact.kind
                == ArtifactKind::Repo && run.artifact.path@ == args.repo@,
        },
{
    match AppRef::parse(args.app_ref.as_str()) {
        Ok(app_ref) => {
            let artifact = Artifact::repo(args.repo.as_str());
            Ok((args.common, CaptureRun::new(Source::Repo(args.repo, app_ref), artifact)))
        },
        Err(message) => Err(message),
    }
}

/// What the check of the machine tells when it went well.
pub fn doctor(version: &str) -> (out: String)
    ensures
        out@ == "flatpak-smoke doctor: screenshot tools and native helper ok ("@ + version@ + ")"@,
{
    cat3("flatpak-smoke doctor: screenshot tools and native helper ok (", version, ")")
}

/// A capture passes only at its end, when the desktop and the app are still there.
pub proof fn captures_pass_at_their_end(run: CaptureRun, event: CaptureEvent, out: CaptureRun)
    requires
        !(run.stage is Ended),
        capture_step(run, event, out),
        out.stage == (CaptureStage::Ended { outcome: Ok(()) }),
    ensures
        run.stage is Health,
        event matches CaptureEvent::Health(Ok(_)),
{
}

/// A capture that fails before its app is installed names no app, blames no step and has no
/// screenshots.
pub proof fn early_failures_name_no_app(run: CaptureRun, event: CaptureEvent, out: CaptureRun)
    requires
        run.wf(),
        before_installation(run.stage),
        capture_step(run, event, out),
        out.stage is Ended,
    ensures
        out.manifest.app_ref is None,
        out.manifest.failed_step_index is None,
        out.manifest.captures@.len() == 0,
{
}

/// A capture that fails outside the steps of its recipe blames no step.
pub proof fn failures_outside_the_recipe_blame_no_step(
    run: CaptureRun,
    event: CaptureEvent,
    out: CaptureRun,
)
    requires
        run.wf(),
        run.awaits(event),
        capture_step(run, event, out),
        run.stage matches CaptureStage::Recipe { work } ==> !workflow::in_step(work.phase),
    ensures
        out.manifest.failed_step_index is None,
{
    if let (CaptureStage::Recipe { work }, CaptureEvent::Work(done)) = (run.stage, event) {
        let next = choose|next: WorkflowRun|
            workflow::work_step(work, done, next) && next.wf() && #[trigger] recipe_step(
                run,
                next,
                out,
            );
        workflow::later_failures_blame_no_step(work, done, next);
    }
}

/// A capture that fails in a step of its recipe blames that step, and keeps the captures of the
/// steps before it.
pub proof fn failures_in_the_recipe_blame_their_step(
    run: CaptureRun,
    work: WorkflowRun,
    event: CaptureEvent,
    out: CaptureRun,
)
    requires
        run.wf(),
        run.stage == (CaptureStage::Recipe { work }),
        workflow::in_step(work.phase),
        run.awaits(event),
        capture_step(run, event, out),
        out.stage is Ended,
    ensures
        out.manifest.failed_step_index == Some(work.index),
        out.manifest.captures == work.manifest.captures,
{
    let done = event->Work_0;
    let next = choose|next: WorkflowRun|
        workflow::work_step(work, done, next) && next.wf() && #[trigger] recipe_step(
            run,
            next,
            out,
        );
    workflow::failures_blame_their_step(work, done, next);
}

/// Whatever goes wrong after the recipe, the captures stay.
pub proof fn captures_outlive_failures(run: CaptureRun, event: CaptureEvent, out: CaptureRun)
    requires
        run.stage is Health,
        capture_step(run, event, out),
    ensures
        out.manifest.captures == run.manifest.captures,
{
}

/// What came of a capture so far: `runs` are its states in order, and `events` lead from each to
/// the next.
pub open spec fn course(runs: Seq<CaptureRun>, events: Seq<CaptureEvent>) -> bool {
    &&& runs.len() == events.len() + 1
    &&& runs[0].wf()
    &&& runs[0].begins()
    &&& forall|i: int|
        0 <= i < events.len() ==> runs[i].awaits(#[trigger] events[i]) && capture_step(
            runs[i],
            events[i],
            runs[i + 1],
        )
}

/// A step keeps a capture well-formed.
proof fn lemma_step_keeps_wf(run: CaptureRun, event: CaptureEvent, out: CaptureRun)
    requires
        run.wf(),
        run.awaits(event),
        capture_step(run, event, out),
    ensures
        out.wf(),
        out.source == run.source,
        out.artifact == run.artifact,
{
    if let (CaptureStage::Recipe { work }, CaptureEvent::Work(done)) = (run.stage, event) {
        let next = choose|next: WorkflowRun|
            workflow::work_step(work, done, next) && next.wf() && #[trigger] recipe_step(
                run,
                next,
                out,
            );
        workflow::recipes_keep_their_captures(work, done, next);
        workflow::captures_stay_in_the_directory(next);
    }
}

/// A capture before its last event.
proof fn lemma_shorter(runs: Seq<CaptureRun>, events: Seq<CaptureEvent>)
    requires
        course(runs, events),
        events.len() > 0,
    ensures
        course(runs.drop_last(), events.drop_last()),
{
    let shorter = runs.drop_last();
    let fewer = events.drop_last();
    assert forall|i: int| 0 <= i < fewer.len() implies shorter[i].awaits(#[trigger] fewer[i])
        && capture_step(shorter[i], fewer[i], shorter[i + 1]) by {
        assert(fewer[i] == events[i]);
    }
}

/// From its beginning to its end, whatever happens, a capture is of the same build, its manifest
/// has what every manifest has, and nothing is told of the app, of the desktop, of the window or
/// of the captures before they are there. All captures lie in the directory of the screenshots.
pub proof fn every_manifest_is_standard(runs: Seq<CaptureRun>, events: Seq<CaptureEvent>)
    requires
        course(runs, events),
    ensures
        runs.last().manifest.standard(),
        workflow::in_the_directory(runs.last().manifest.captures@),
        runs.last().wf(),
        runs.last().source == runs[0].source,
        runs.last().artifact == runs[0].artifact,
    decreases events.len(),
{
    if events.len() > 0 {
        let n = events.len() - 1;
        lemma_shorter(runs, events);
        every_manifest_is_standard(runs.drop_last(), events.drop_last());
        assert(runs[n].awaits(events[n]));
        lemma_step_keeps_wf(runs[n], events[n], runs[n + 1]);
    }
}

/// A capture that did not install anything.
spec fn nothing_installed(run: CaptureRun) -> bool {
    &&& run.is_untouched()
    &&& before_installation(run.stage) || run.stage is Ended || run.stage is Refused
}

proof fn lemma_nothing_installed(runs: Seq<CaptureRun>, events: Seq<CaptureEvent>)
    requires
        course(runs, events),
        forall|i: int| 0 <= i < events.len() ==> !(#[trigger] events[i] is Installed),
    ensures
        nothing_installed(runs.last()),
    decreases events.len(),
{
    if events.len() > 0 {
        let n = events.len() - 1;
        let fewer = events.drop_last();
        lemma_shorter(runs, events);
        assert forall|i: int| 0 <= i < fewer.len() implies !(#[trigger] fewer[i] is Installed) by {
            assert(fewer[i] == events[i]);
        }
        lemma_nothing_installed(runs.drop_last(), fewer);
        assert(runs[n].awaits(events[n]));
    }
}

/// A capture that never installed its app names no app, blames no step and has no captures,
/// however it ended.
pub proof fn nothing_is_told_without_an_installation(
    runs: Seq<CaptureRun>,
    events: Seq<CaptureEvent>,
)
    requires
        course(runs, events),
        forall|i: int| 0 <= i < events.len() ==> !(#[trigger] events[i] is Installed),
    ensures
        runs.last().manifest.begins(),
        runs.last().timings == runs[0].timings,
{
    lemma_nothing_installed(runs, events);
}

/// The recipe that a capture took in is the one that it follows and has the captures of.
spec fn is_about(run: CaptureRun, recipe: Recipe) -> bool {
    match run.stage {
        CaptureStage::Admission => false,
        CaptureStage::Refused { .. } => true,
        CaptureStage::Recipe { work } => work.recipe == recipe,
        CaptureStage::Health => workflow::taken_names(run.manifest.captures@) == recipe::capture_names(
            recipe.steps@,
        ),
        CaptureStage::Ended { outcome } => outcome is Ok ==> workflow::taken_names(run.manifest.captures@)
            == recipe::capture_names(recipe.steps@),
        _ => run.recipe == Some(recipe),
    }
}

proof fn lemma_about(runs: Seq<CaptureRun>, events: Seq<CaptureEvent>, recipe: Recipe)
    requires
        course(runs, events),
        events.len() > 0,
        events[0] matches CaptureEvent::Admission { recipe: read, .. } && read == recipe,
    ensures
        is_about(runs.last(), recipe),
    decreases events.len(),
{
    let n = events.len() - 1;
    let run = runs[n];
    let out = runs[n + 1];
    assert(run.awaits(events[n]));
    if n > 0 {
        lemma_shorter(runs, events);
        lemma_about(runs.drop_last(), events.drop_last(), recipe);
        every_manifest_is_standard(runs.drop_last(), events.drop_last());
        if let (CaptureStage::Recipe { work }, CaptureEvent::Work(done)) = (run.stage, events[n]) {
            let next = choose|next: WorkflowRun|
                workflow::work_step(work, done, next) && next.wf() && #[trigger] recipe_step(
                    run,
                    next,
                    out,
                );
            assert(next.recipe == work.recipe);
            if next.phase is Finished {
                workflow::finished_recipes_have_every_capture(next);
            }
        }
    }
}

/// A capture begins only with a recipe that is in order and a build that is there. Otherwise it is
/// refused by its first event, and stays so: nothing is prepared, installed or reported.
pub proof fn captures_are_admitted_first(
    runs: Seq<CaptureRun>,
    events: Seq<CaptureEvent>,
    recipe: Recipe,
    exists: bool,
)
    requires
        course(runs, events),
        events.len() > 0,
        events[0] == (CaptureEvent::Admission { recipe, exists }),
    ensures
        admission_fault(recipe, runs[0].artifact.path@, exists) matches Some(fault) ==> {
            &&& events.len() == 1
            &&& (runs.last().stage matches CaptureStage::Refused { message } && message@ == fault)
            &&& runs.last().is_untouched()
        },
        admission_fault(recipe, runs[0].artifact.path@, exists) is None ==> !(
        runs.last().stage is Refused),
        !(runs.last().stage is Admission),
    decreases events.len(),
{
    let n = events.len() - 1;
    assert(runs[0].awaits(events[0]));
    assert(runs[n].awaits(events[n]));
    if n > 0 {
        lemma_shorter(runs, events);
        captures_are_admitted_first(runs.drop_last(), events.drop_last(), recipe, exists);
    }
}

/// A capture that passed has exactly the screenshots that the recipe asks for that it took in, in
/// order, and blames no step.
pub proof fn passed_captures_have_every_screenshot(
    runs: Seq<CaptureRun>,
    events: Seq<CaptureEvent>,
    recipe: Recipe,
)
    requires
        course(runs, events),
        events.len() > 0,
        events[0] matches CaptureEvent::Admission { recipe: read, .. } && read == recipe,
        runs.last().stage == (CaptureStage::Ended { outcome: Ok(()) }),
    ensures
        workflow::taken_names(runs.last().manifest.captures@) == recipe::capture_names(recipe.steps@),
        runs.last().manifest.failed_step_index is None,
        runs.last().manifest.app_ref is Some,
        runs.last().manifest.desktop_version is Some,
{
    lemma_about(runs, events, recipe);
    every_manifest_is_standard(runs, events);
}

} // verus!
