//! Sessions from their first report to their last.
use crate::result::FailureReason;
use crate::session::{Course, ProcessState, Report, SessionError, Stage};
use crate::{number, session};
use vstd::prelude::*;

verus! {

/// Where reports lead a session, one after the other.
pub open spec fn told(course: Course, reports: Seq<Report>) -> Course
    decreases reports.len(),
{
    if reports.len() == 0 {
        course
    } else {
        session::session_step(told(course, reports.drop_last()), reports.last())
    }
}

/// Whether each report answers what the session did.
pub open spec fn in_order(course: Course, reports: Seq<Report>) -> bool {
    forall|i: int|
        0 <= i < reports.len() ==> session::answers(
            told(course, reports.take(i)).stage,
            #[trigger] reports[i],
        )
}

/// A session that begins.
pub open spec fn begun(name: Seq<char>, clicks: Seq<Seq<char>>) -> Course {
    Course { name, clicks, stage: Stage::Baseline, screenshots: Seq::empty(), launch_to_window: 0 }
}

/// The error text of a screenshot fails a session, be it the first screenshot or one after a click.
pub proof fn error_texts_fail_the_session(course: Course, index: nat, marker: String)
    requires
        course.stage is FirstText || course.stage == (Stage::ChangeText { index }),
    ensures
        session::session_step(course, Report::Marker { marker: Some(marker) }).stage == (
        Stage::Failed {
            reason: FailureReason::AppErrorWindow,
            message: "screenshot text matched app error marker '"@ + marker@ + "'"@,
        }),
{
}

/// A click whose text is not on the screenshot fails a session, and so does a first screenshot that
/// shows nothing.
pub proof fn missing_things_fail_the_session(course: Course, index: nat, path: String)
    ensures
        course.stage == (Stage::Locate { index }) ==> session::session_step(
            course,
            Report::Target { target: None },
        ).stage == (Stage::Failed {
            reason: FailureReason::ScreenshotFailed,
            message: "could not find text '"@ + course.clicks[index as int]
                + "' in screenshot OCR output"@,
        }),
        course.stage is FirstContent ==> session::session_step(
            course,
            Report::NoContent { path },
        ).stage == (Stage::Failed {
            reason: FailureReason::ScreenshotFailed,
            message: "screenshot '"@ + path@ + "' contained no visible app content"@,
        }),
{
}

/// A click goes where its text was found, and belongs to the screenshot after it.
pub proof fn clicks_go_where_the_text_is(course: Course, index: nat, target: (i32, i32))
    requires
        course.stage == (Stage::Locate { index }),
        index < course.clicks.len(),
    ensures
        ({
            let clicked = session::session_step(course, Report::Target { target: Some(target) });
            let settled = session::session_step(clicked, Report::Done);
            let changed = session::session_step(settled, Report::Done);
            let taken = session::session_step(changed, Report::Done);
            &&& clicked.stage == (Stage::Click { index, target })
            &&& settled.stage == (Stage::Settle { index })
            &&& changed.stage == (Stage::Change { index })
            &&& taken.stage == (Stage::ChangeText { index })
            &&& changed.screenshots == course.screenshots
            &&& taken.screenshots == course.screenshots.push(
                "screenshots/"@ + (number::padded_seq(index + 1, 3) + "-after-click-"@
                    + session::slug(course.clicks[index as int]) + ".png"@),
            )
        }),
{
}

/// Whether a report tells of something that a session must not pass over.
pub open spec fn is_bad(report: Report) -> bool {
    match report {
        Report::Failed { .. } => true,
        Report::NoContent { .. } => true,
        Report::Marker { marker } => marker is Some,
        Report::Target { target } => target is None,
        _ => false,
    }
}

proof fn lemma_failures_stay(course: Course, reports: Seq<Report>, at: int)
    requires
        0 <= at <= reports.len(),
        told(course, reports.take(at)).stage is Failed,
    ensures
        told(course, reports).stage is Failed,
    decreases reports.len(),
{
    if at < reports.len() {
        assert(reports.drop_last().take(at) =~= reports.take(at));
        lemma_failures_stay(course, reports.drop_last(), at);
    } else {
        assert(reports.take(at) =~= reports);
    }
}

proof fn lemma_finish_stays(course: Course, reports: Seq<Report>, at: int)
    requires
        0 <= at <= reports.len(),
        told(course, reports.take(at)).stage is Finished,
    ensures
        told(course, reports).stage is Finished,
    decreases reports.len(),
{
    if at < reports.len() {
        assert(reports.drop_last().take(at) =~= reports.take(at));
        lemma_finish_stays(course, reports.drop_last(), at);
    } else {
        assert(reports.take(at) =~= reports);
    }
}

/// A session finishes only where nothing bad was reported on the way: no failure, no empty picture,
/// no error text in any screenshot, and no click whose text was not there.
pub proof fn finished_sessions_had_nothing_bad(
    name: Seq<char>,
    clicks: Seq<Seq<char>>,
    reports: Seq<Report>,
)
    requires
        reports.len() > 0,
        in_order(begun(name, clicks), reports),
        told(begun(name, clicks), reports).stage is Finished,
        !(told(begun(name, clicks), reports.drop_last()).stage is Finished),
    ensures
        forall|i: int| 0 <= i < reports.len() ==> !is_bad(#[trigger] reports[i]),
{
    let course = begun(name, clicks);
    assert forall|i: int| 0 <= i < reports.len() implies !is_bad(#[trigger] reports[i]) by {
        let before = told(course, reports.take(i));
        assert(session::answers(before.stage, reports[i]));
        let upto = reports.take(i + 1);
        assert(upto.drop_last() =~= reports.take(i));
        assert(upto.last() == reports[i]);
        if before.stage is Finished {
            let shorter = reports.drop_last();
            assert(shorter.take(i) =~= reports.take(i));
            lemma_finish_stays(course, shorter, i);
        }
        if is_bad(reports[i]) {
            if before.stage is Failed {
                lemma_failures_stay(course, reports, i);
            } else {
                assert(told(course, upto).stage is Failed);
                lemma_failures_stay(course, reports, i + 1);
            }
        }
    }
}

/// The reports of a session in which all goes well, up to its clicks.
pub open spec fn good_start(elapsed_ms: u128) -> Seq<Report> {
    seq![
        Report::Done,
        Report::Done,
        Report::Visible { elapsed_ms },
        Report::Done,
        Report::Content,
        Report::Marker { marker: None },
    ]
}

/// The reports of clicks that go well.
pub open spec fn good_clicks(targets: Seq<(i32, i32)>) -> Seq<Report>
    decreases targets.len(),
{
    if targets.len() == 0 {
        Seq::empty()
    } else {
        good_clicks(targets.drop_last()) + seq![
            Report::Target { target: Some(targets.last()) },
            Report::Done,
            Report::Done,
            Report::Done,
            Report::Marker { marker: None },
        ]
    }
}

/// The paths of the screenshots of a session: the first under its name, and then one after each
/// click under its number and its text.
pub open spec fn all_paths(name: Seq<char>, clicks: Seq<Seq<char>>) -> Seq<Seq<char>>
    decreases clicks.len(),
{
    if clicks.len() == 0 {
        seq!["screenshots/"@ + name]
    } else {
        all_paths(name, clicks.drop_last()).push(
            "screenshots/"@ + (number::padded_seq(clicks.len(), 3) + "-after-click-"@
                + session::slug(clicks.last()) + ".png"@),
        )
    }
}

proof fn lemma_told_more(course: Course, first: Seq<Report>, second: Seq<Report>)
    ensures
        told(course, first + second) == told(told(course, first), second),
    decreases second.len(),
{
    if second.len() == 0 {
        assert(first + second =~= first);
    } else {
        assert((first + second).drop_last() =~= first + second.drop_last());
        lemma_told_more(course, first, second.drop_last());
    }
}

proof fn lemma_good_start(name: Seq<char>, clicks: Seq<Seq<char>>, elapsed_ms: u128)
    ensures
        ({
            let course = told(begun(name, clicks), good_start(elapsed_ms));
            &&& course.name == name
            &&& course.clicks == clicks
            &&& course.screenshots == seq!["screenshots/"@ + name]
            &&& course.launch_to_window == elapsed_ms
            &&& course.stage == if clicks.len() == 0 {
                Stage::Budget
            } else {
                Stage::Locate { index: 0 }
            }
        }),
{
    let all = good_start(elapsed_ms);
    let start = begun(name, clicks);
    reveal_with_fuel(told, 7);
    let five = all.drop_last();
    let four = five.drop_last();
    let three = four.drop_last();
    let two = three.drop_last();
    let one = two.drop_last();
    assert(one.drop_last().len() == 0);
    assert(one.last() == all[0] && two.last() == all[1] && three.last() == all[2] && four.last()
        == all[3] && five.last() == all[4]);
    assert(told(start, one).stage == Stage::Launch);
    assert(told(start, two).stage == Stage::Frame);
    assert(told(start, three).stage == Stage::First);
    assert(told(start, four).stage == Stage::FirstContent);
    assert(told(start, four).screenshots =~= seq!["screenshots/"@ + name]);
    assert(told(start, five).stage == Stage::FirstText);
}

proof fn lemma_good_clicks(
    name: Seq<char>,
    clicks: Seq<Seq<char>>,
    elapsed_ms: u128,
    targets: Seq<(i32, i32)>,
)
    requires
        targets.len() <= clicks.len(),
    ensures
        ({
            let course = told(
                begun(name, clicks),
                good_start(elapsed_ms) + good_clicks(targets),
            );
            &&& course.name == name
            &&& course.clicks == clicks
            &&& course.screenshots == all_paths(name, clicks.take(targets.len() as int))
            &&& course.launch_to_window == elapsed_ms
            &&& course.stage == if clicks.len() == targets.len() {
                Stage::Budget
            } else {
                Stage::Locate { index: targets.len() }
            }
        }),
    decreases targets.len(),
{
    let start = begun(name, clicks);
    if targets.len() == 0 {
        assert(good_start(elapsed_ms) + good_clicks(targets) =~= good_start(elapsed_ms));
        lemma_good_start(name, clicks, elapsed_ms);
        assert(clicks.take(0) =~= Seq::empty());
    } else {
        let fewer = targets.drop_last();
        let index = fewer.len();
        lemma_good_clicks(name, clicks, elapsed_ms, fewer);
        let head = good_start(elapsed_ms) + good_clicks(fewer);
        let tail = seq![
            Report::Target { target: Some(targets.last()) },
            Report::Done,
            Report::Done,
            Report::Done,
            Report::Marker { marker: None },
        ];
        assert(good_start(elapsed_ms) + good_clicks(targets) =~= head + tail);
        lemma_told_more(start, head, tail);
        let before = told(start, head);
        clicks_go_where_the_text_is(before, index, targets.last());
        reveal_with_fuel(told, 6);
        let four = tail.drop_last();
        let three = four.drop_last();
        let two = three.drop_last();
        let one = two.drop_last();
        assert(one.drop_last().len() == 0);
        assert(one.last() == tail[0] && two.last() == tail[1] && three.last() == tail[2]
            && four.last() == tail[3]);
        let shown = clicks.take(targets.len() as int);
        assert(shown.drop_last() =~= clicks.take(index as int));
        assert(shown.last() == clicks[index as int]);
    }
}

/// A session in which all goes well finishes, with the first screenshot, one after each click in
/// order, and the time until the first window.
pub proof fn good_sessions_finish(
    name: Seq<char>,
    clicks: Seq<Seq<char>>,
    elapsed_ms: u128,
    targets: Seq<(i32, i32)>,
)
    requires
        targets.len() == clicks.len(),
    ensures
        ({
            let end = told(
                begun(name, clicks),
                (good_start(elapsed_ms) + good_clicks(targets)).push(Report::Done),
            );
            &&& end.stage is Finished
            &&& end.screenshots == all_paths(name, clicks)
            &&& end.launch_to_window == elapsed_ms
        }),
{
    let reports = good_start(elapsed_ms) + good_clicks(targets);
    lemma_good_clicks(name, clicks, elapsed_ms, targets);
    assert(clicks.take(clicks.len() as int) =~= clicks);
    assert(reports.push(Report::Done).drop_last() =~= reports);
}

/// A failure at any point ends a session with its reason and its message, and with the screenshots
/// so far.
pub proof fn failures_are_passed_on(course: Course, error: SessionError)
    requires
        !(course.stage is Finished || course.stage is Failed),
    ensures
        ({
            let end = session::session_step(course, Report::Failed { error });
            &&& end.stage == (Stage::Failed { reason: error.reason, message: error.message@ })
            &&& end.screenshots == course.screenshots
        }),
{
}

/// A display that ended is told before an app that ended, an app that ended is told as that, and a
/// session whose processes all run has nothing to tell.
pub proof fn ended_processes_are_told(weston: ProcessState, app: Option<ProcessState>)
    ensures
        weston matches ProcessState::Exited(status) ==> session::process_failure(weston, app) == Some(
            (
                FailureReason::DisplayExited,
                "Weston exited during verification with "@ + status@,
            ),
        ),
        weston is Running && (app matches Some(ProcessState::Exited(_))) ==> session::process_failure(
            weston,
            app,
        ) == Some(
            (
                FailureReason::EarlyExit,
                "app exited during verification with "@ + app->0->Exited_0@,
            ),
        ),
        weston matches ProcessState::Unknown(error) ==> session::process_failure(weston, app)
            == Some((FailureReason::InternalError, error@)),
        weston is Running && (app matches Some(ProcessState::Unknown(_))) ==> session::process_failure(
            weston,
            app,
        ) == Some((FailureReason::InternalError, app->0->Unknown_0@)),
        weston is Running && (app is None || app->0 is Running) ==> session::process_failure(
            weston,
            app,
        ) is None,
{
}

} // verus!
