//! Steps of a recipe: what each kind of step does from its beginning to its end.
use crate::process::BudgetError;
use crate::result::FailureReason;
use crate::screenshot::desktop::{Input, Window};
use crate::screenshot::images::ImageInfo;
use crate::screenshot::recipe::Action;
use crate::screenshot::workflow::{Phase, WorkEvent, WorkflowRun};
use crate::screenshot::CaptureError;
use crate::laws::windows;
use crate::screenshot::{images, workflow};
use crate::time::{Duration, Instant};
use crate::{number, ocr, text};
use vstd::prelude::*;

verus! {

/// A run that goes from one state to the next by each of some events.
pub open spec fn goes(runs: Seq<WorkflowRun>, events: Seq<WorkEvent>) -> bool {
    &&& runs.len() == events.len() + 1
    &&& forall|i: int|
        0 <= i < events.len() ==> workflow::work_step(#[trigger] runs[i], events[i], runs[i + 1])
}

/// The step that a run is in, by its fields.
pub open spec fn acts(run: WorkflowRun, action: Action) -> bool {
    run.index < run.recipe.steps@.len() && run.recipe.steps@[run.index as int].action == action
}

/// The step of a run is done, and the next one begins, or the end of the recipe.
pub open spec fn step_done(before: WorkflowRun, after: WorkflowRun) -> bool {
    &&& after.recipe == before.recipe
    &&& after.index == before.index + 1
    &&& if before.index + 1 < before.recipe.steps@.len() {
        after.phase is Begin && after.manifest.failed_step_index == Some(after.index)
    } else {
        after.phase is Budget && after.manifest.failed_step_index is None
    }
}

/// Everything but the phase is as it was.
pub open spec fn only_waits(before: WorkflowRun, after: WorkflowRun) -> bool {
    &&& after.recipe == before.recipe
    &&& after.index == before.index
    &&& after.selected == before.selected
    &&& after.manifest == before.manifest
}

/// A run that failed with this, and blames its step.
pub open spec fn step_failed(
    before: WorkflowRun,
    after: WorkflowRun,
    reason: FailureReason,
    message: Seq<char>,
) -> bool {
    &&& only_waits(before, after)
    &&& after.phase matches Phase::Failed { error } && error.reason == Some(reason)
        && error.message@ == "recipe step "@ + number::decimal_seq(before.index as nat) + ": "@
        + message
}

/// Text that is typed, and keys that are pressed, reach the selected window as they stand in the
/// recipe, and the step is done once the helper has done it and all is well.
pub proof fn what_is_typed_is_sent(
    runs: Seq<WorkflowRun>,
    written: String,
    keys: Vec<u32>,
)
    requires
        goes(
            runs,
            seq![
                WorkEvent::Begun(Ok(())),
                WorkEvent::Done(Ok(())),
                WorkEvent::Health(Ok(())),
            ],
        ),
        runs[0].phase is Begin,
        acts(runs[0], Action::TypeText(written)) || acts(runs[0], Action::Key(keys)),
    ensures
        acts(runs[0], Action::TypeText(written)) ==> (runs[1].phase matches Phase::Act {
            input: Input::Text(sent),
        } && sent@ == written@),
        acts(runs[0], Action::Key(keys)) ==> (runs[1].phase matches Phase::Act {
            input: Input::Key(sent),
        } && sent@ == keys@),
        only_waits(runs[0], runs[1]),
        step_done(runs[0], runs[3]),
        runs[3].manifest.captures == runs[0].manifest.captures,
        runs[3].selected == runs[0].selected,
{
    assert(workflow::work_step(runs[0], WorkEvent::Begun(Ok(())), runs[1]));
    assert(workflow::work_step(runs[1], WorkEvent::Done(Ok(())), runs[2]));
    assert(workflow::work_step(runs[2], WorkEvent::Health(Ok(())), runs[3]));
}

/// A label that stands at one place of the window, as the readings of its picture tell, is clicked
/// there.
pub proof fn labels_are_clicked_where_they_stand(
    runs: Seq<WorkflowRun>,
    label: String,
    shown: (Window, ImageInfo),
    now: Instant,
    passes: Vec<String>,
)
    requires
        goes(
            runs,
            seq![
                WorkEvent::Begun(Ok(())),
                WorkEvent::Snapshot { result: Ok(shown), now },
                WorkEvent::Text(Ok(passes)),
                WorkEvent::Logged(Ok(())),
                WorkEvent::Done(Ok(())),
                WorkEvent::Health(Ok(())),
            ],
        ),
        runs[0].phase is Begin,
        acts(runs[0], Action::ClickText(label)),
        images::places_fit(text::views(passes@), label@),
        images::label_matches(text::views(passes@), label@).len() == 1,
        ({
            let at = images::label_matches(text::views(passes@), label@)[0];
            0 <= at.0 < 2 * shown.0.buffer.width && 0 <= at.1 < 2 * shown.0.buffer.height
        }),
    ensures
        runs[4].phase matches Phase::Act { input: Input::Click { x, y } } && (x as int, y as int)
            == images::label_matches(text::views(passes@), label@)[0],
        only_waits(runs[0], runs[4]),
        step_done(runs[0], runs[6]),
        runs[6].manifest.captures == runs[0].manifest.captures,
        runs[6].selected == runs[0].selected,
{
    assert(workflow::work_step(runs[0], WorkEvent::Begun(Ok(())), runs[1]));
    assert(workflow::work_step(runs[1], WorkEvent::Snapshot { result: Ok(shown), now }, runs[2]));
    assert(workflow::work_step(runs[2], WorkEvent::Text(Ok(passes)), runs[3]));
    assert(workflow::work_step(runs[3], WorkEvent::Logged(Ok(())), runs[4]));
    assert(workflow::work_step(runs[4], WorkEvent::Done(Ok(())), runs[5]));
    assert(workflow::work_step(runs[5], WorkEvent::Health(Ok(())), runs[6]));
    let places = runs[3].phase->Candidates_places;
    assert(ocr::points(places@)[0] == (places@[0].0 as int, places@[0].1 as int));
}

/// A label that stands nowhere, or at several places, or outside of the window, is not clicked: the
/// step fails.
pub proof fn other_labels_are_not_clicked(
    runs: Seq<WorkflowRun>,
    label: String,
    shown: (Window, ImageInfo),
    now: Instant,
    passes: Vec<String>,
)
    requires
        goes(
            runs,
            seq![
                WorkEvent::Begun(Ok(())),
                WorkEvent::Snapshot { result: Ok(shown), now },
                WorkEvent::Text(Ok(passes)),
                WorkEvent::Logged(Ok(())),
                WorkEvent::Health(Ok(())),
            ],
        ),
        runs[0].phase is Begin,
        acts(runs[0], Action::ClickText(label)),
        images::places_fit(text::views(passes@), label@),
    ensures
        ({
            let places = images::label_matches(text::views(passes@), label@);
            &&& places.len() != 1 ==> step_failed(
                runs[0],
                runs[5],
                FailureReason::ScreenshotFailed,
                "click text '"@ + label@ + "' matched "@ + number::decimal_seq(places.len())
                    + " locations; expected exactly one"@,
            )
            &&& places.len() == 1 && (places[0].0 < 0 || places[0].0 >= 2 * shown.0.buffer.width
                || places[0].1 < 0 || places[0].1 >= 2 * shown.0.buffer.height) ==> step_failed(
                runs[0],
                runs[5],
                FailureReason::ScreenshotFailed,
                "click target is outside the selected window"@,
            )
        }),
{
    assert(workflow::work_step(runs[0], WorkEvent::Begun(Ok(())), runs[1]));
    assert(workflow::work_step(runs[1], WorkEvent::Snapshot { result: Ok(shown), now }, runs[2]));
    assert(workflow::work_step(runs[2], WorkEvent::Text(Ok(passes)), runs[3]));
    assert(workflow::work_step(runs[3], WorkEvent::Logged(Ok(())), runs[4]));
    assert(workflow::work_step(runs[4], WorkEvent::Health(Ok(())), runs[5]));
}

/// A step that waits for a text is done once the text stands somewhere. As long as it does not, the
/// window is looked at again after a wait.
pub proof fn texts_are_waited_for(
    runs: Seq<WorkflowRun>,
    label: String,
    shown: (Window, ImageInfo),
    now: Instant,
    passes: Vec<String>,
    last: WorkEvent,
)
    requires
        goes(
            runs,
            seq![
                WorkEvent::Begun(Ok(())),
                WorkEvent::Snapshot { result: Ok(shown), now },
                WorkEvent::Text(Ok(passes)),
                last,
            ],
        ),
        runs[0].phase is Begin,
        acts(runs[0], Action::WaitText(label)),
        images::places_fit(text::views(passes@), label@),
        if images::label_matches(text::views(passes@), label@).len() > 0 {
            last matches WorkEvent::Health(Ok(_))
        } else {
            last matches WorkEvent::Slept(Ok(_))
        },
    ensures
        images::label_matches(text::views(passes@), label@).len() > 0 ==> step_done(
            runs[0],
            runs[4],
        ),
        images::label_matches(text::views(passes@), label@).len() == 0 ==> only_waits(
            runs[0],
            runs[4],
        ) && runs[3].phase is LookWait && runs[4].phase == runs[1].phase,
        runs[4].manifest.captures == runs[0].manifest.captures,
        runs[4].selected == runs[0].selected,
{
    assert(workflow::work_step(runs[0], WorkEvent::Begun(Ok(())), runs[1]));
    assert(workflow::work_step(runs[1], WorkEvent::Snapshot { result: Ok(shown), now }, runs[2]));
    assert(workflow::work_step(runs[2], WorkEvent::Text(Ok(passes)), runs[3]));
    assert(workflow::work_step(runs[3], last, runs[4]));
}

/// A window is selected by its title: the one window that has it becomes the selected one, and its
/// content is observed from the beginning. Where none has it, the windows are listed again after a
/// wait.
pub proof fn windows_are_selected_by_title(
    runs: Seq<WorkflowRun>,
    listed: Vec<Window>,
)
    requires
        goes(runs, seq![WorkEvent::Begun(Ok(())), WorkEvent::Windows(Ok(listed))]),
        runs[0].phase is Begin,
        runs[0].index < runs[0].recipe.steps@.len(),
        runs[0].recipe.steps@[runs[0].index as int].action is SelectWindow,
    ensures
        ({
            let title = runs[0].recipe.steps@[runs[0].index as int].action->SelectWindow_0.title@;
            let kept = windows::titled(listed@, title);
            &&& kept.len() == 1 ==> {
                &&& runs[2].selected == kept[0].id
                &&& runs[2].recipe == runs[0].recipe
                &&& runs[2].index == runs[0].index
                &&& runs[2].manifest == runs[0].manifest
                &&& runs[2].phase matches Phase::Observe { seen } && seen == windows::looked(
                    Seq::empty(),
                )
            }
            &&& kept.len() == 0 ==> only_waits(runs[0], runs[2]) && runs[2].phase is SelectWait
            &&& kept.len() > 1 ==> only_waits(runs[0], runs[2]) && (runs[2].phase matches
                Phase::Judge { error } && error.message@ == "ambiguous window selection: "@
                + number::decimal_seq(kept.len())
                + " matching windows; specify a unique title"@)
        }),
{
    assert(workflow::work_step(runs[0], WorkEvent::Begun(Ok(())), runs[1]));
    assert(workflow::work_step(runs[1], WorkEvent::Windows(Ok(listed)), runs[2]));
    let title = runs[0].recipe.steps@[runs[0].index as int].action->SelectWindow_0.title@;
    assert(listed@.len() == listed.len());
    windows::titles_choose_their_windows(listed@, title);
    let kept = windows::titled(listed@, title);
    listed@.lemma_filter_len(|window: Window| window.title@ == title);
    if kept.len() == 1 {
        let seen = runs[2].phase->Observe_seen;
        let none = Seq::<(bool, Instant)>::empty();
        assert(seen.samples == 0 && seen.visible_since is None);
        assert(seen == windows::looked(none));
    }
}

/// What a run has seen after looks at the selected window, one after the other with waits between
/// them: the content at each, and when that was.
pub open spec fn observes(
    runs: Seq<WorkflowRun>,
    shown: Seq<(Window, ImageInfo)>,
    times: Seq<Instant>,
) -> bool {
    &&& shown.len() == times.len()
    &&& runs.len() == 2 * shown.len() + 1
    &&& forall|k: int|
        0 <= k < shown.len() ==> workflow::work_step(
            #[trigger] runs[2 * k],
            WorkEvent::Snapshot { result: Ok(shown[k]), now: times[k] },
            runs[2 * k + 1],
        )
    &&& forall|k: int|
        0 <= k < shown.len() - 1 ==> workflow::work_step(
            #[trigger] runs[2 * k + 1],
            WorkEvent::Slept(Ok(())),
            runs[2 * k + 2],
        )
}

/// The looks at a window, as an observation counts them.
pub open spec fn looks(shown: Seq<(Window, ImageInfo)>, times: Seq<Instant>) -> Seq<
    (bool, Instant),
> {
    Seq::new(shown.len(), |k: int| (shown[k].1.has_content, times[k]))
}

proof fn lemma_observes(
    runs: Seq<WorkflowRun>,
    shown: Seq<(Window, ImageInfo)>,
    times: Seq<Instant>,
    k: int,
)
    requires
        observes(runs, shown, times),
        runs[0].phase == (Phase::Observe { seen: windows::looked(Seq::empty()) }),
        0 <= k < shown.len(),
        forall|j: int|
            0 <= j < k ==> !windows::looked((#[trigger] looks(shown, times).take(j + 1))).ready(
                times[j],
            ),
    ensures
        runs[2 * k].phase == (Phase::Observe { seen: windows::looked(looks(shown, times).take(k)) }),
        only_waits(runs[0], runs[2 * k]),
    decreases k,
{
    let all = looks(shown, times);
    if k == 0 {
        assert(all.take(0) =~= Seq::empty());
    } else {
        let j = k - 1;
        lemma_observes(runs, shown, times, j);
        assert(workflow::work_step(
            runs[2 * j],
            WorkEvent::Snapshot { result: Ok(shown[j]), now: times[j] },
            runs[2 * j + 1],
        ));
        assert(workflow::work_step(runs[2 * j + 1], WorkEvent::Slept(Ok(())), runs[2 * j + 2]));
        let upto = all.take(k);
        assert(upto =~= all.take(j + 1));
        assert(upto.drop_last() =~= all.take(j));
        assert(upto.last() == all[j]);
        assert(windows::looked(upto) == windows::looked(all.take(j)).after(
            shown[j].1.has_content,
            times[j],
        ));
        assert(!windows::looked(all.take(j + 1)).ready(times[j]));
        assert(2 * j + 2 == 2 * k);
    }
}

/// A step that captures looks at the window until its content has stayed. Then the picture is kept
/// of the look that showed so, and the capture is recorded behind the others: under its name, with
/// its caption, and with the sizes of the picture and of the window.
pub proof fn captures_are_taken_once_content_stays(
    before: WorkflowRun,
    runs: Seq<WorkflowRun>,
    shown: Seq<(Window, ImageInfo)>,
    times: Seq<Instant>,
    after: Seq<WorkflowRun>,
)
    requires
        before.phase is Begin,
        before.index < before.recipe.steps@.len(),
        before.recipe.steps@[before.index as int].action is Capture,
        shown.len() > 0,
        workflow::work_step(before, WorkEvent::Begun(Ok(())), runs[0]),
        observes(runs, shown, times),
        forall|j: int|
            0 <= j < shown.len() - 1 ==> !windows::looked(
                (#[trigger] looks(shown, times).take(j + 1)),
            ).ready(times[j]),
        windows::looked(looks(shown, times)).ready(times.last()),
        after.len() == 3,
        after[0] == runs[2 * (shown.len() - 1) + 1],
        workflow::work_step(after[0], WorkEvent::Saved(Ok(())), after[1]),
        workflow::work_step(after[1], WorkEvent::Health(Ok(())), after[2]),
    ensures
        after[0].phase == (Phase::Save { window: shown.last().0, image: shown.last().1 }),
        after[0].manifest == before.manifest,
        step_done(before, after[2]),
        after[2].selected == before.selected,
        ({
            let asked = before.recipe.steps@[before.index as int].action->Capture_0;
            let old_captures = before.manifest.captures@;
            let taken = after[2].manifest.captures@;
            &&& taken.len() == old_captures.len() + 1
            &&& forall|i: int|
                0 <= i < old_captures.len() ==> #[trigger] taken[i] == old_captures[i]
            &&& taken.last().name@ == asked.name@
            &&& taken.last().caption@ == asked.caption@
            &&& taken.last().language@ == "en"@
            &&& taken.last().path@ == "screenshots/"@ + (number::padded_seq(old_captures.len(), 3)
                + "-"@ + asked.name@ + ".png"@)
            &&& taken.last().width == shown.last().1.width
            &&& taken.last().height == shown.last().1.height
            &&& taken.last().window_width == shown.last().0.frame.width
            &&& taken.last().window_height == shown.last().0.frame.height
        }),
{
    let k = shown.len() - 1;
    let all = looks(shown, times);
    let none = Seq::<(bool, Instant)>::empty();
    let fresh = runs[0].phase->Observe_seen;
    assert(fresh.samples == 0 && fresh.visible_since is None);
    assert(windows::looked(none) == fresh);
    lemma_observes(runs, shown, times, k);
    assert(workflow::work_step(
        runs[2 * k],
        WorkEvent::Snapshot { result: Ok(shown[k]), now: times[k] },
        runs[2 * k + 1],
    ));
    assert(all.drop_last() =~= all.take(k));
    assert(all.last() == all[k]);
    assert(windows::looked(all) == windows::looked(all.take(k)).after(
        shown[k].1.has_content,
        times[k],
    ));
    let taken = after[2].manifest.captures@;
    assert(taken.drop_last() == before.manifest.captures@);
    assert forall|i: int| 0 <= i < before.manifest.captures@.len() implies #[trigger] taken[i]
        == before.manifest.captures@[i] by {
        assert(taken.drop_last()[i] == taken[i]);
    }
}

/// A step that selected a window is done once the window's content has stayed, and takes no
/// picture.
pub proof fn selected_windows_are_observed(
    runs: Seq<WorkflowRun>,
    shown: Seq<(Window, ImageInfo)>,
    times: Seq<Instant>,
    after: WorkflowRun,
)
    requires
        runs[0].index < runs[0].recipe.steps@.len(),
        runs[0].recipe.steps@[runs[0].index as int].action is SelectWindow,
        runs[0].phase == (Phase::Observe { seen: windows::looked(Seq::empty()) }),
        shown.len() > 0,
        observes(runs, shown, times),
        forall|j: int|
            0 <= j < shown.len() - 1 ==> !windows::looked(
                (#[trigger] looks(shown, times).take(j + 1)),
            ).ready(times[j]),
        windows::looked(looks(shown, times)).ready(times.last()),
        workflow::work_step(
            runs[2 * (shown.len() - 1) + 1],
            WorkEvent::Health(Ok(())),
            after,
        ),
    ensures
        step_done(runs[0], after),
        after.selected == runs[0].selected,
        after.manifest.captures == runs[0].manifest.captures,
{
    let k = shown.len() - 1;
    let all = looks(shown, times);
    lemma_observes(runs, shown, times, k);
    assert(workflow::work_step(
        runs[2 * k],
        WorkEvent::Snapshot { result: Ok(shown[k]), now: times[k] },
        runs[2 * k + 1],
    ));
    assert(all.drop_last() =~= all.take(k));
    assert(all.last() == all[k]);
    assert(windows::looked(all) == windows::looked(all.take(k)).after(
        shown[k].1.has_content,
        times[k],
    ));
}

// ---------------------------------------------------------------------------
// Failures

/// Whether an event brings this error to a step that waits for it.
pub open spec fn brings(event: WorkEvent, phase: Phase, cause: CaptureError) -> bool {
    match event {
        WorkEvent::Windows(Err(error)) => phase is Select && error == cause,
        WorkEvent::Snapshot { result: Err(error), .. } => (phase is Observe || phase is Look)
            && error == cause,
        WorkEvent::Text(Err(error)) => phase is Read && error == cause,
        WorkEvent::Done(Err(error)) => phase is Act && error == cause,
        WorkEvent::Saved(Err(message)) => phase is Save && cause.reason is None && cause.message@
            == message@,
        WorkEvent::Logged(Err(message)) => phase is Candidates && cause.reason is None
            && cause.message@ == message@,
        WorkEvent::Slept(Err(message)) => phase is ObserveWait && cause.reason is None
            && cause.message@ == message@,
        _ => false,
    }
}

/// An error in a step fails the recipe with the number of the step, and with the reason of the
/// error where it has one. Where the desktop or the app ended, that is what is told instead.
pub proof fn errors_fail_the_step(
    run: WorkflowRun,
    event: WorkEvent,
    cause: CaptureError,
    judged: WorkflowRun,
    health: Result<(), CaptureError>,
    out: WorkflowRun,
)
    requires
        brings(event, run.phase, cause),
        workflow::work_step(run, event, judged),
        workflow::work_step(judged, WorkEvent::Health(health), out),
    ensures
        health is Ok ==> step_failed(
            run,
            out,
            match cause.reason {
                Some(reason) => reason,
                None => FailureReason::ScreenshotFailed,
            },
            cause.message@,
        ),
        health matches Err(error) ==> only_waits(run, out) && out.phase == (Phase::Failed { error }),
{
}

/// A step whose window or text does not come in time fails with what it waited for.
pub proof fn steps_wait_no_longer_than_their_time(
    run: WorkflowRun,
    message: String,
    judged: WorkflowRun,
    out: WorkflowRun,
    label: String,
)
    requires
        run.phase is SelectWait || run.phase is LookWait,
        workflow::work_step(run, WorkEvent::Slept(Err(message)), judged),
        workflow::work_step(judged, WorkEvent::Health(Ok(())), out),
    ensures
        run.phase is LookWait && acts(run, Action::WaitText(label)) ==> step_failed(
            run,
            out,
            FailureReason::ScreenshotFailed,
            "waiting for text '"@ + label@ + "'"@ + ": "@ + message@,
        ),
        run.phase is SelectWait ==> step_failed(
            run,
            out,
            FailureReason::WindowTimeout,
            "waiting for app window "@ + workflow::debug_text(
                Some(run.recipe.steps@[run.index as int].action->SelectWindow_0.title@),
            ) + ": "@ + message@,
        ),
{
}

/// A step that cannot be begun fails the recipe as it is told, and a step whose desktop or app ended
/// fails with that, though it did what it should.
pub proof fn steps_need_a_desktop(
    run: WorkflowRun,
    message: String,
    error: CaptureError,
    out: WorkflowRun,
)
    ensures
        run.phase is Begin && workflow::work_step(run, WorkEvent::Begun(Err(message)), out)
            ==> only_waits(run, out) && (out.phase matches Phase::Failed { error: told }
            && told.reason is None && told.message@ == message@),
        run.phase is Check && workflow::work_step(run, WorkEvent::Health(Err(error)), out)
            ==> only_waits(run, out) && out.phase == (Phase::Failed { error }),
{
}

// ---------------------------------------------------------------------------
// The end

/// After its last step a recipe is finished only where there is time left, the windows can still be
/// listed, and the desktop and the app are there.
pub proof fn recipes_end_with_a_last_look(
    runs: Seq<WorkflowRun>,
    left: Duration,
    listed: Vec<Window>,
)
    requires
        goes(
            runs,
            seq![
                WorkEvent::Budget(Ok(left)),
                WorkEvent::Windows(Ok(listed)),
                WorkEvent::Health(Ok(())),
            ],
        ),
        runs[0].phase is Budget,
    ensures
        only_waits(runs[0], runs[3]),
        runs[3].phase is Finished,
        !(runs[1].phase is Finished) && !(runs[2].phase is Finished),
{
    assert(workflow::work_step(runs[0], WorkEvent::Budget(Ok(left)), runs[1]));
    assert(workflow::work_step(runs[1], WorkEvent::Windows(Ok(listed)), runs[2]));
    assert(workflow::work_step(runs[2], WorkEvent::Health(Ok(())), runs[3]));
}

/// Where one of them is missing after the last step, the recipe fails with that, and blames no step.
pub proof fn recipes_can_fail_at_their_end(
    run: WorkflowRun,
    spent: BudgetError,
    error: CaptureError,
    out: WorkflowRun,
)
    ensures
        run.phase is Budget && workflow::work_step(run, WorkEvent::Budget(Err(spent)), out)
            ==> only_waits(run, out) && (out.phase matches Phase::Failed { error: told }
            && told.reason is None && told.message@ == match spent {
            BudgetError::Cancelled => "run cancelled"@,
            BudgetError::Elapsed => "deadline elapsed"@,
        }),
        run.phase is FinalWindows && workflow::work_step(run, WorkEvent::Windows(Err(error)), out)
            ==> only_waits(run, out) && (out.phase matches Phase::Failed { error: told }
            && told.reason == Some(FailureReason::ScreenshotFailed) && told.message@
            == "final helper check"@ + ": "@ + error.message@),
        run.phase is FinalCheck && workflow::work_step(run, WorkEvent::Health(Err(error)), out)
            ==> only_waits(run, out) && out.phase == (Phase::Failed { error }),
{
}

/// A recipe that ended stays as it is.
pub proof fn ended_recipes_stay(run: WorkflowRun, event: WorkEvent, out: WorkflowRun)
    requires
        run.phase is Finished || run.phase is Failed || run.phase is Unfit,
        workflow::work_step(run, event, out),
    ensures
        only_waits(run, out),
        out.phase == run.phase,
{
}

/// A recipe finishes only from its last look, and never in the middle of a step.
pub proof fn recipes_finish_only_at_their_end(
    run: WorkflowRun,
    event: WorkEvent,
    out: WorkflowRun,
)
    requires
        workflow::work_step(run, event, out),
        run.awaits(event),
        out.phase is Finished,
    ensures
        run.phase is FinalCheck,
        event matches WorkEvent::Health(Ok(_)),
{
}

} // verus!
