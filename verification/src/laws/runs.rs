//! Whole runs: what a verification and a capture report for all that can happen in them.
use crate::installer::{Installation, Progress};
use crate::result::{Artifact, FailureReason, RunResult, RunStatus};
use crate::screenshot::gnome::Dependencies;
use crate::screenshot::manifest::Manifest;
use crate::screenshot::recipe::Recipe;
use crate::screenshot::run::{CaptureEvent, CaptureRun, CaptureStage, Source};
use crate::screenshot::workflow::{Phase, WorkEvent, WorkflowRun};
use crate::screenshot::CaptureError;
use crate::session::{SessionError, SessionSuccess};
use crate::time::Duration;
use crate::verify::{Verification, VerifyEvent};
use crate::screenshot::{app_ref, manifest, recipe, run, setup, workflow};
use crate::{installer, text, verify};
use vstd::prelude::*;

verus! {

/// The result of a verification, field by field.
pub open spec fn tells(
    end: Verification,
    artifact: Artifact,
    app_ref: Option<Seq<char>>,
    install: Option<u128>,
    launch_to_window: Option<u128>,
    total: u128,
    screenshots: Seq<Seq<char>>,
    failure: Option<(FailureReason, Seq<char>)>,
) -> bool {
    end matches Verification::Done { result, complaint } && {
        &&& result.schema_version == 1
        &&& result.artifact == artifact
        &&& text::option_view(result.app_ref) == app_ref
        &&& result.timings_ms.install == install
        &&& result.timings_ms.launch_to_window == launch_to_window
        &&& result.timings_ms.total == total
        &&& result.screenshots@.len() == screenshots.len()
        &&& forall|i: int|
            0 <= i < screenshots.len() ==> (#[trigger] result.screenshots@[i])@ == screenshots[i]
        &&& match failure {
            None => result.status == RunStatus::Passed && result.failure is None && complaint
                is None,
            Some((reason, message)) => {
                &&& result.status == RunStatus::Failed
                &&& result.failure matches Some(told) && told.reason == reason && told.message@
                    == message
                &&& complaint matches Some(said) && said@ == "verification failed: "@ + message
            },
        }
    }
}

proof fn lemma_views(list: Seq<String>, screenshots: Seq<Seq<char>>)
    requires
        text::views(list) == screenshots,
    ensures
        list.len() == screenshots.len(),
        forall|i: int| 0 <= i < screenshots.len() ==> (#[trigger] list[i])@ == screenshots[i],
{
    assert forall|i: int| 0 <= i < screenshots.len() implies (#[trigger] list[i])@
        == screenshots[i] by {
        assert(text::views(list)[i] == list[i]@);
    }
}

/// A verification passes where nothing is missing, one app was installed, there is time left and the
/// session succeeds. Its result has the ref of the app, how long the installation, the launch and
/// the whole took, and the screenshots of the session.
pub proof fn verifications_pass(
    artifact: Artifact,
    none: Vec<String>,
    installation: Installation,
    app_ref: Seq<char>,
    took_ms: u128,
    elapsed: Duration,
    timeout: Duration,
    success: SessionSuccess,
    totals: Seq<u128>,
    states: Seq<Verification>,
)
    requires
        none@.len() == 0,
        installation@ == (Progress::Installed { app_ref }) || (installation@ matches Progress::Listed {
            refs,
        } && refs == seq![app_ref] && text::begins(app_ref, "app/"@)),
        elapsed@ < timeout@,
        totals.len() == 4,
        states.len() == 5,
        states[0] == (Verification::Tools { artifact }),
        verify::verify_step(states[0], VerifyEvent::Tools { missing: none }, totals[0], states[1]),
        verify::verify_step(
            states[1],
            VerifyEvent::Installed { installation, took_ms },
            totals[1],
            states[2],
        ),
        verify::verify_step(
            states[2],
            VerifyEvent::Elapsed { elapsed, overall_timeout: timeout },
            totals[2],
            states[3],
        ),
        verify::verify_step(
            states[3],
            VerifyEvent::Session { result: Ok(success) },
            totals[3],
            states[4],
        ),
    ensures
        tells(
            states[4],
            artifact,
            Some(app_ref),
            Some(took_ms),
            Some(success.launch_to_window_ms),
            totals[3],
            text::views(success.screenshot_paths@),
            None,
        ),
        !(states[1] is Done) && !(states[2] is Done) && !(states[3] is Done),
{
    if let Progress::Listed { refs } = installation@ {
        assert(refs.len() == 1 && refs[0] == app_ref);
        assert(installer::full_ref(refs[0]) == app_ref);
    }
    if let Verification::Done { result, .. } = states[4] {
        lemma_views(result.screenshots@, text::views(success.screenshot_paths@));
    }
}

/// A verification fails at the first thing that goes wrong, with its reason, and tells what is known
/// by then: the ref of the app and how long the installation took.
pub proof fn verifications_fail_at_the_first_fault(
    artifact: Artifact,
    missing: Vec<String>,
    installation: Installation,
    took_ms: u128,
    app_ref: String,
    elapsed: Duration,
    timeout: Duration,
    error: SessionError,
    total: u128,
    out: Verification,
)
    ensures
        missing@.len() > 0 && verify::verify_step(
            Verification::Tools { artifact },
            VerifyEvent::Tools { missing },
            total,
            out,
        ) ==> tells(
            out,
            artifact,
            None,
            None,
            None,
            total,
            Seq::empty(),
            Some(
                (
                    FailureReason::InternalError,
                    "missing required tool(s): "@ + text::join_seq(
                        text::views(missing@),
                        ", "@,
                    ),
                ),
            ),
        ),
        (installation@ matches Progress::Failed { app_ref: known, reason, message }
            && verify::verify_step(
            Verification::Install { artifact },
            VerifyEvent::Installed { installation, took_ms },
            total,
            out,
        )) ==> tells(
            out,
            artifact,
            installation@->Failed_app_ref,
            Some(took_ms),
            None,
            total,
            Seq::empty(),
            Some((installation@->reason, installation@->message)),
        ),
        elapsed@ >= timeout@ && verify::verify_step(
            Verification::Budget { artifact, app_ref, install_ms: took_ms },
            VerifyEvent::Elapsed { elapsed, overall_timeout: timeout },
            total,
            out,
        ) ==> tells(
            out,
            artifact,
            Some(app_ref@),
            Some(took_ms),
            None,
            total,
            Seq::empty(),
            Some(
                (FailureReason::InternalError, "overall timeout elapsed before app launch"@),
            ),
        ),
        verify::verify_step(
            Verification::Session { artifact, app_ref, install_ms: took_ms },
            VerifyEvent::Session { result: Err(error) },
            total,
            out,
        ) ==> tells(
            out,
            artifact,
            Some(app_ref@),
            Some(took_ms),
            None,
            total,
            text::views(error.screenshots@),
            Some((error.reason, error.message@)),
        ),
{
    if let Verification::Done { result, .. } = out {
        let none = Seq::<Seq<char>>::empty();
        if text::views(result.screenshots@) == none {
            lemma_views(result.screenshots@, none);
        }
        if text::views(result.screenshots@) == text::views(error.screenshots@) {
            lemma_views(result.screenshots@, text::views(error.screenshots@));
        }
    }
}

/// Where a bundle installed no app, or several, the verification of it fails as it is told.
pub proof fn bundles_need_one_app(
    artifact: Artifact,
    installation: Installation,
    took_ms: u128,
    total: u128,
    out: Verification,
)
    requires
        installation@ is Listed,
        verify::verify_step(
            Verification::Install { artifact },
            VerifyEvent::Installed { installation, took_ms },
            total,
            out,
        ),
    ensures
        installer::inferred_ref(installation@->refs) matches Err(message) ==> tells(
            out,
            artifact,
            None,
            Some(took_ms),
            None,
            total,
            Seq::empty(),
            Some((FailureReason::InternalError, message)),
        ),
        installer::inferred_ref(installation@->refs) matches Ok(found) ==> (
        out matches Verification::Budget { app_ref, .. } && app_ref@ == found),
{
    if let Verification::Done { result, .. } = out {
        let none = Seq::<Seq<char>>::empty();
        if text::views(result.screenshots@) == none {
            lemma_views(result.screenshots@, none);
        }
    }
}

// ---------------------------------------------------------------------------
// Captures

/// The ref of a source or of the one app that its bundle installed.
pub open spec fn names_the_app(source: Source, progress: Progress, written: Seq<char>) -> bool {
    match source {
        Source::Bundle(_) => progress matches Progress::Listed { refs } && refs == seq![written]
            && text::begins(written, "app/"@) && app_ref::ref_fault(written) is None,
        Source::Repo(_, app_ref) => progress is Installed && written == "app/"@ + app_ref.id@
            + "/"@ + app_ref.arch@ + "/"@ + app_ref.branch@,
    }
}

/// A capture whose recipe is in order and whose build is there comes, by its output, its checks, its
/// private home, its installation, its profile, its desktop and its app, to its first window, and
/// follows the recipe there from the first step. It knows the app's ref, the desktop's version and
/// how long the installation and the launch took.
pub proof fn captures_come_to_their_recipe(
    runs: Seq<CaptureRun>,
    events: Seq<CaptureEvent>,
    asked: Recipe,
    installation: Installation,
    took_ms: u128,
    version: String,
    selected: u64,
    launch_ms: u128,
    written: Seq<char>,
)
    requires
        runs.len() == 10,
        events == seq![
            CaptureEvent::Admission { recipe: asked, exists: true },
            CaptureEvent::Output,
            CaptureEvent::Dependencies(Dependencies::Met { version }),
            CaptureEvent::Workspace(Ok(())),
            CaptureEvent::Installed { installation, took_ms },
            CaptureEvent::Profile(Ok(())),
            CaptureEvent::Desktop(Ok(version)),
            CaptureEvent::Launched(Ok(())),
            CaptureEvent::Window { result: Ok(selected), took_ms: launch_ms },
        ],
        runs[0].begins(),
        forall|i: int|
            0 <= i < 9 ==> run::capture_step(#[trigger] runs[i], events[i], runs[i + 1]),
        recipe::recipe_fault(asked) is None,
        setup::settings_fault(asked) is None,
        names_the_app(runs[0].source, installation@, written),
    ensures
        runs[1].stage is Output,
        runs[2].stage is Dependencies,
        runs[3].stage is Workspace,
        runs[4].stage is Install,
        runs[5].stage is Profile,
        runs[6].stage is Desktop,
        runs[7].stage is Launch,
        runs[8].stage is Window,
        runs[9].stage matches CaptureStage::Recipe { work } && {
            &&& work.recipe == asked
            &&& work.index == 0
            &&& work.selected == selected
            &&& work.manifest.captures@.len() == 0
            &&& text::option_view(work.manifest.app_ref) == Some(written)
            &&& text::option_view(work.manifest.desktop_version) == Some(version@)
        },
        text::option_view(runs[9].manifest.app_ref) == Some(written),
        runs[9].manifest.desktop_version == Some(version),
        runs[9].manifest.captures@.len() == 0,
        runs[9].timings.install == Some(took_ms),
        runs[9].timings.launch_to_window == Some(launch_ms),
        runs[9].source == runs[0].source,
        runs[9].artifact == runs[0].artifact,
{
    assert(run::capture_step(runs[0], events[0], runs[1]));
    assert(run::capture_step(runs[1], events[1], runs[2]));
    assert(run::capture_step(runs[2], events[2], runs[3]));
    assert(run::capture_step(runs[3], events[3], runs[4]));
    assert(run::capture_step(runs[4], events[4], runs[5]));
    assert(run::capture_step(runs[5], events[5], runs[6]));
    assert(run::capture_step(runs[6], events[6], runs[7]));
    assert(run::capture_step(runs[7], events[7], runs[8]));
    assert(run::capture_step(runs[8], events[8], runs[9]));
    if let Progress::Listed { refs } = installation@ {
        if runs[0].source is Bundle {
            assert(refs.len() == 1 && refs[0] == written);
            assert(installer::full_ref(refs[0]) == written);
        }
    }
}

/// A capture that failed like this, before anything else was learnt.
pub open spec fn fails(
    before: CaptureRun,
    after: CaptureRun,
    reason: FailureReason,
    message: Seq<char>,
) -> bool {
    &&& after.stage matches CaptureStage::Ended { outcome: Err(failure) } && failure.reason
        == reason && failure.message@ == message
    &&& after.manifest == before.manifest
    &&& after.source == before.source
    &&& after.artifact == before.artifact
}

/// The reason of an error, or another where it has none.
pub open spec fn reason_or(error: CaptureError, otherwise: FailureReason) -> FailureReason {
    match error.reason {
        Some(reason) => reason,
        None => otherwise,
    }
}

/// A capture ends at the first thing that goes wrong: with the reason of the error, or, where that
/// has none, as an internal error, but for the desktop, which could not be started.
pub proof fn captures_fail_at_the_first_fault(
    before: CaptureRun,
    error: CaptureError,
    told: String,
    took_ms: u128,
    after: CaptureRun,
)
    ensures
        before.stage is Dependencies && run::capture_step(
            before,
            CaptureEvent::Dependencies(Dependencies::Unmet { message: told }),
            after,
        ) ==> fails(before, after, FailureReason::DependencyFailed, told@),
        before.stage is Workspace && run::capture_step(
            before,
            CaptureEvent::Workspace(Err(error)),
            after,
        ) ==> fails(
            before,
            after,
            reason_or(error, FailureReason::InternalError),
            error.message@,
        ),
        before.stage is Profile && run::capture_step(
            before,
            CaptureEvent::Profile(Err(error)),
            after,
        ) ==> fails(
            before,
            after,
            reason_or(error, FailureReason::InternalError),
            error.message@,
        ),
        before.stage is Desktop && run::capture_step(
            before,
            CaptureEvent::Desktop(Err(error)),
            after,
        ) ==> fails(
            before,
            after,
            reason_or(error, FailureReason::DisplayStartFailed),
            error.message@,
        ),
        before.stage is Launch && run::capture_step(
            before,
            CaptureEvent::Launched(Err(error)),
            after,
        ) ==> fails(
            before,
            after,
            reason_or(error, FailureReason::InternalError),
            error.message@,
        ),
        before.stage is Window && run::capture_step(
            before,
            CaptureEvent::Window { result: Err(error), took_ms },
            after,
        ) ==> fails(
            before,
            after,
            reason_or(error, FailureReason::InternalError),
            error.message@,
        ),
        before.stage is Health && run::capture_step(
            before,
            CaptureEvent::Health(Err(error)),
            after,
        ) ==> fails(
            before,
            after,
            reason_or(error, FailureReason::InternalError),
            error.message@,
        ),
{
}

/// A capture whose settings are wrong ends before the machine is looked at, as an internal error,
/// and one whose recipe is wrong or whose build is not there is refused without a report.
pub proof fn wrong_recipes_go_no_further(
    before: CaptureRun,
    asked: Recipe,
    exists: bool,
    after: CaptureRun,
)
    ensures
        before.stage is Output && before.recipe is Some && run::capture_step(
            before,
            CaptureEvent::Output,
            after,
        ) ==> (setup::settings_fault(before.recipe->0) matches Some(fault) ==> fails(
            before,
            after,
            FailureReason::InternalError,
            fault,
        )),
        before.stage is Admission && run::capture_step(
            before,
            CaptureEvent::Admission { recipe: asked, exists },
            after,
        ) ==> {
            &&& recipe::recipe_fault(asked) matches Some(fault) ==> (
            after.stage matches CaptureStage::Refused { message } && message@ == fault)
            &&& recipe::recipe_fault(asked) is None && !exists ==> (
            after.stage matches CaptureStage::Refused { message } && message@ == "artifact"@
                + " '"@ + before.artifact.path@ + "' does not exist"@)
            &&& recipe::recipe_fault(asked) is None && exists ==> after.stage is Output
        },
{
    let event = CaptureEvent::Admission { recipe: asked, exists };
    if before.stage is Admission && run::capture_step(before, event, after) {
        let fault = run::admission_fault(asked, before.artifact.path@, exists);
        if recipe::recipe_fault(asked) is None && !exists {
            assert(fault == Some("artifact"@ + " '"@ + before.artifact.path@ + "' does not exist"@));
        }
    }
}

/// What an installation came to, for a capture: one app of a bundle with a proper ref, or the app
/// that a repository was asked for. Anything else ends the capture, and tells how long it took.
pub proof fn captures_need_one_app(
    before: CaptureRun,
    installation: Installation,
    took_ms: u128,
    after: CaptureRun,
)
    requires
        before.stage is Install,
        run::capture_step(before, CaptureEvent::Installed { installation, took_ms }, after),
    ensures
        after.timings.install == Some(took_ms),
        after.timings.launch_to_window == before.timings.launch_to_window,
        (installation@ matches Progress::Listed { refs } && refs.len() != 1) ==> fails(
            before,
            after,
            FailureReason::InternalError,
            "bundle must install exactly one application"@,
        ),
        installation@ matches Progress::Failed { reason, message, .. } ==> fails(
            before,
            after,
            reason,
            message,
        ),
        forall|written: Seq<char>|
            #[trigger] names_the_app(before.source, installation@, written) ==> {
                &&& text::option_view(after.manifest.app_ref) == Some(written)
                &&& after.stage matches CaptureStage::Profile { app_ref } && app_ref.written()
                    == written
                &&& after.manifest.captures == before.manifest.captures
            },
{
    assert forall|written: Seq<char>|
        #[trigger] names_the_app(before.source, installation@, written) implies {
        &&& text::option_view(after.manifest.app_ref) == Some(written)
        &&& after.stage matches CaptureStage::Profile { app_ref } && app_ref.written() == written
        &&& after.manifest.captures == before.manifest.captures
    } by {
        if let Progress::Listed { refs } = installation@ {
            if before.source is Bundle {
                assert(refs.len() == 1 && refs[0] == written);
                assert(installer::full_ref(refs[0]) == written);
            }
        }
    }
}

/// A recipe that comes to its end brings the capture to its last look, with the captures that were
/// taken, and a recipe that fails ends it, with the captures so far and the step that is blamed.
pub proof fn captures_end_with_their_recipe(
    before: CaptureRun,
    work: WorkflowRun,
    done: WorkEvent,
    next: WorkflowRun,
    after: CaptureRun,
)
    requires
        before.stage == (CaptureStage::Recipe { work }),
        run::recipe_step(before, next, after),
    ensures
        next.phase is Finished ==> after.stage is Health && after.manifest == next.manifest,
        next.phase matches Phase::Failed { error } ==> after.manifest == next.manifest && (
        after.stage matches CaptureStage::Ended { outcome: Err(failure) } && failure.reason
            == reason_or(error, FailureReason::InternalError) && failure.message@
            == error.message@),
        !(next.phase is Finished) && !(next.phase is Failed) ==> after.stage == (
        CaptureStage::Recipe { work: next }) && after.manifest == before.manifest,
        after.timings == before.timings,
        after.source == before.source,
        after.artifact == before.artifact,
{
}

/// The result of a capture names the app, the times and the screenshots. One that failed says why,
/// and has the last picture that was looked at, where there is one, behind its screenshots.
pub proof fn captures_report_what_they_have(
    end: CaptureRun,
    total: u128,
    has_candidate: bool,
    result: RunResult,
)
    requires
        run::reports(end, total, has_candidate, result),
        end.stage is Ended,
    ensures
        result.schema_version == 1,
        result.artifact == end.artifact,
        result.timings_ms.install == end.timings.install,
        result.timings_ms.launch_to_window == end.timings.launch_to_window,
        result.timings_ms.total == total,
        text::option_view(result.app_ref) == text::option_view(end.manifest.app_ref),
        forall|i: int|
            0 <= i < end.manifest.captures@.len() ==> i < result.screenshots@.len() && (
            #[trigger] end.manifest.captures@[i]).path@ == result.screenshots@[i]@,
        end.stage matches CaptureStage::Ended { outcome: Ok(_) } ==> {
            &&& result.status == RunStatus::Passed
            &&& result.failure is None
            &&& result.screenshots@.len() == end.manifest.captures@.len()
        },
        end.stage matches CaptureStage::Ended { outcome: Err(failure) } ==> {
            &&& result.status == RunStatus::Failed
            &&& result.failure matches Some(told) && told.reason == failure.reason
                && told.message@ == failure.message@
            &&& result.screenshots@.len() == end.manifest.captures@.len() + if has_candidate {
                1int
            } else {
                0
            }
            &&& has_candidate ==> result.screenshots@.last()@ == "logs/last-candidate.png"@
        },
{
    let shown = result.screenshots@;
    let captures = end.manifest.captures@;
    let kept = run::taken_paths(captures);
    lemma_views(shown, text::views(shown));
    assert forall|i: int| 0 <= i < captures.len() implies i < shown.len() && (
    #[trigger] captures[i]).path@ == shown[i]@ by {
        assert(kept[i] == captures[i].path@);
        assert(text::views(shown)[i] == kept[i]);
    }
    if has_candidate && (end.stage matches CaptureStage::Ended { outcome: Err(_) }) {
        let last = shown.len() - 1;
        assert(text::views(shown)[last] == kept.push("logs/last-candidate.png"@)[last]);
    }
}

// ---------------------------------------------------------------------------
// Manifests

/// A manifest begins with what is known beforehand: version 1, GNOME, English, unscaled, and no app,
/// no desktop, no captures and no step to blame.
pub proof fn manifests_begin_with_what_is_known(manifest: Manifest)
    ensures
        manifest.begins() <==> {
            &&& manifest.schema_version == 1
            &&& manifest.desktop@ == "gnome"@
            &&& manifest.language@ == "en"@
            &&& manifest.scale == 1
            &&& manifest.recipe_version == 1
            &&& manifest.desktop_version is None
            &&& manifest.app_ref is None
            &&& manifest.failed_step_index is None
            &&& manifest.captures@.len() == 0
        },
{
}

/// To learn the app's ref or the desktop's version changes nothing else of a manifest, and a recipe
/// begins with all that its capture learnt.
pub proof fn manifests_keep_what_they_know(before: Manifest, after: Manifest, version: String)
    ensures
        (exists|written: Seq<char>| #[trigger] run::with_ref(before, after, written)) ==> {
            &&& after.schema_version == before.schema_version
            &&& after.desktop == before.desktop
            &&& after.desktop_version == before.desktop_version
            &&& after.language == before.language
            &&& after.scale == before.scale
            &&& after.recipe_version == before.recipe_version
            &&& after.failed_step_index == before.failed_step_index
            &&& after.captures == before.captures
            &&& after.app_ref is Some
        },
        run::with_version(before, after, version) ==> {
            &&& after.schema_version == before.schema_version
            &&& after.desktop == before.desktop
            &&& after.desktop_version == Some(version)
            &&& after.language == before.language
            &&& after.scale == before.scale
            &&& after.recipe_version == before.recipe_version
            &&& after.failed_step_index == before.failed_step_index
            &&& after.captures == before.captures
            &&& after.app_ref == before.app_ref
        },
        manifest::heads_agree(before, after) <==> {
            &&& after.schema_version == before.schema_version
            &&& after.desktop@ == before.desktop@
            &&& text::option_view(after.desktop_version) == text::option_view(
                before.desktop_version,
            )
            &&& after.language@ == before.language@
            &&& after.scale == before.scale
            &&& after.recipe_version == before.recipe_version
            &&& text::option_view(after.app_ref) == text::option_view(before.app_ref)
        },
        workflow::same_head(before, after) ==> manifest::heads_agree(before, after),
{
}

/// A recipe begins with its first step, which would be blamed, or with its end where it has none.
pub proof fn recipes_begin_with_their_first_step(
    work: WorkflowRun,
    asked: Recipe,
    selected: u64,
    head: Manifest,
)
    requires
        work.begins(asked, selected, head),
    ensures
        work.recipe == asked,
        work.index == 0,
        work.selected == selected,
        work.manifest.captures@.len() == 0,
        manifest::heads_agree(work.manifest, head),
        asked.steps@.len() > 0 ==> work.phase is Begin && work.manifest.failed_step_index == Some(
            0usize,
        ),
        asked.steps@.len() == 0 ==> work.phase is Budget && work.manifest.failed_step_index is None,
{
}

} // verus!
