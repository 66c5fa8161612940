//! Values: what errors say, and what states stand for, field by field.
use crate::capture::{Attempt, Search, TargetSearch, ToolCall};
use crate::display::ReadyStep;
use crate::installer::{InstallError, Installation, Progress};
use crate::ocr::OcrWord;
use crate::process::BudgetError;
use crate::result::FailureReason;
use crate::screenshot::gnome::{Dependencies, Startup};
use crate::screenshot::images::{Inspection, Reading};
use crate::screenshot::manifest::Capture;
use crate::screenshot::recipe::{Action, RawStep};
use crate::screenshot::workspace::{Entry, Origin, OriginView};
use crate::screenshot::workflow::WindowStart;
use crate::screenshot::CaptureError;
use crate::session::{SessionError, SessionRun, SessionStage};
use crate::time::{Duration, Instant};
use crate::tools::RequiredPath;
use crate::verify::Variable;
use crate::vnc::{Handshake, UpdateStage, UpdateState};
use crate::screenshot::{recipe, run, workflow};
use crate::{cli, ocr, process, session, text, tools, vnc};
use vstd::prelude::*;

verus! {

/// Errors say their reason and their message, and a new error of a session has no screenshots.
pub proof fn errors_say_their_reason_and_message(
    install: InstallError,
    session: SessionError,
    capture: CaptureError,
    reason: FailureReason,
    known: Option<FailureReason>,
    message: Seq<char>,
)
    ensures
        install.says(reason, message) <==> install.reason == reason && install.message@ == message,
        session.says(reason, message) <==> session.reason == reason && session.message@ == message
            && session.screenshots@.len() == 0,
        capture.says(known, message) <==> capture.reason == known && capture.message@ == message,
{
}

/// What fails with an error holds it.
pub proof fn failures_hold_their_errors(
    attempt: Attempt,
    step: ReadyStep,
    inspection: Inspection,
    reading: Reading,
    startup: Startup,
    start: WindowStart,
    checks: Dependencies,
    reason: FailureReason,
    known: Option<FailureReason>,
    message: Seq<char>,
)
    ensures
        attempt.fails_with(reason, message) <==> (attempt matches Attempt::Fail(error)
            && error.reason == reason && error.message@ == message && error.screenshots@.len()
            == 0),
        step.fails_with(reason, message) <==> (step matches ReadyStep::Fail(error) && error.reason
            == reason && error.message@ == message && error.screenshots@.len() == 0),
        inspection.fails_with(message) <==> (inspection matches Inspection::Failed { error }
            && error.reason is None && error.message@ == message),
        reading.fails_with(message) <==> (reading matches Reading::Failed { error }
            && error.reason is None && error.message@ == message),
        startup.fails_with(known, message) <==> (startup matches Startup::Failed { error }
            && error.reason == known && error.message@ == message),
        start.gives_up(known, message) <==> (start matches WindowStart::Check {
            outcome: Err(error),
        } && error.reason == known && error.message@ == message),
        checks.lacks(message) <==> (checks matches Dependencies::Unmet { message: told } && told@
            == message),
{
}

/// Texts stand for their characters, in lists one by one.
pub proof fn lists_stand_for_their_texts(
    texts: Seq<String>,
    borrowed: Seq<&str>,
    bytes: Seq<Vec<u8>>,
    maybe: Option<String>,
    places: Seq<(i32, i32)>,
)
    ensures
        text::views(texts).len() == texts.len(),
        forall|i: int| 0 <= i < texts.len() ==> #[trigger] text::views(texts)[i] == texts[i]@,
        text::str_views(borrowed).len() == borrowed.len(),
        forall|i: int|
            0 <= i < borrowed.len() ==> #[trigger] text::str_views(borrowed)[i] == borrowed[i]@,
        text::byte_views(bytes).len() == bytes.len(),
        forall|i: int| 0 <= i < bytes.len() ==> #[trigger] text::byte_views(bytes)[i] == bytes[i]@,
        maybe is None <==> text::option_view(maybe) is None,
        maybe matches Some(held) ==> text::option_view(maybe) == Some(held@),
        ocr::points(places).len() == places.len(),
        forall|i: int|
            0 <= i < places.len() ==> (#[trigger] ocr::points(places)[i]).0 == places[i].0
                && ocr::points(places)[i].1 == places[i].1,
{
}

/// Calls, variables and files are what their fields are.
pub proof fn entries_are_what_they_hold(
    call: ToolCall,
    program: Seq<char>,
    before: Seq<Seq<char>>,
    after: Seq<Seq<char>>,
    variable: Variable,
    entry: Entry,
    required: RequiredPath,
    name: Seq<char>,
    value: Seq<char>,
    origin: OriginView,
    executable: bool,
)
    ensures
        call.is(program, before, after) <==> call.program@ == program && text::views(call.before@)
            == before && text::views(call.after@) == after,
        variable.is(name, value) <==> variable.name@ == name && variable.value@ == value,
        entry.is((name, origin)) <==> entry.name@ == name && entry.origin@ == origin,
        required.is(name, value, executable) <==> required.label@ == name && required.path@ == value
            && required.executable == executable,
        entry.origin matches Origin::Inherited(default) ==> entry.origin@ == OriginView::Inherited(
            default@,
        ),
        entry.origin is Home ==> entry.origin@ == OriginView::Home,
        entry.origin matches Origin::Fixed(held) ==> entry.origin@ == OriginView::Fixed(held@),
        entry.origin matches Origin::Below(held) ==> entry.origin@ == OriginView::Below(held@),
{
}

/// A word stands for its text, its line, its place and its size.
pub proof fn words_stand_for_their_fields(word: OcrWord)
    ensures
        word@.text == word.text@,
        word@.line.0 == word.block_num,
        word@.line.1 == word.par_num,
        word@.line.2 == word.line_num,
        word@.left == word.left,
        word@.top == word.top,
        word@.width == word.width,
        word@.height == word.height,
{
}

/// Times count nanoseconds.
pub proof fn times_count_nanoseconds(duration: Duration, instant: Instant)
    ensures
        duration@ == duration.nanos,
        instant@ == instant.nanos,
{
}

/// What an installation stands for.
pub proof fn installations_stand_for_their_progress(installation: Installation)
    ensures
        installation matches Installation::Flathub { app_ref } ==> installation@ == (
        Progress::Flathub { app_ref: text::option_view(app_ref) }),
        installation is Bundle ==> installation@ == Progress::Bundle,
        installation is List ==> installation@ == Progress::List,
        installation matches Installation::Remote { app_ref } ==> installation@ == (
        Progress::Remote { app_ref: app_ref@ }),
        installation matches Installation::Ref { app_ref } ==> installation@ == (Progress::Ref {
            app_ref: app_ref@,
        }),
        installation matches Installation::Listed { refs } ==> installation@ == (Progress::Listed {
            refs: text::views(refs@),
        }),
        installation matches Installation::Installed { app_ref } ==> installation@ == (
        Progress::Installed { app_ref: app_ref@ }),
        installation matches Installation::Failed { app_ref, error } ==> installation@ == (
        Progress::Failed {
            app_ref: text::option_view(app_ref),
            reason: error.reason,
            message: error.message@,
        }),
{
}

/// What a search for the place to click stands for.
pub proof fn searches_stand_for_their_stages(search: TargetSearch)
    ensures
        search is Table ==> search@ == Search::Table,
        search matches TargetSearch::Components { matches } ==> search@ == (Search::Components {
            matches: ocr::points(matches@),
        }),
        search matches TargetSearch::Crop { matches, button } ==> search@ == (Search::Crop {
            matches: ocr::points(matches@),
            button,
        }),
        search matches TargetSearch::Label { matches, button } ==> search@ == (Search::Label {
            matches: ocr::points(matches@),
            button,
        }),
        search matches TargetSearch::Found { target: None, by_button } ==> search@ == (
        Search::Found { target: None, by_button }),
        search matches TargetSearch::Found { target: Some(at), by_button } ==> search@ == (
        Search::Found { target: Some((at.0 as int, at.1 as int)), by_button }),
        search matches TargetSearch::Failed { error } ==> search@ == (Search::Failed {
            reason: error.reason,
            message: error.message@,
        }),
        search is Unfit ==> search@ == Search::Unfit,
{
}

/// What a handshake stands for.
pub proof fn handshakes_stand_for_their_stages(handshake: Handshake)
    ensures
        handshake is Version ==> handshake@ == vnc::Stage::Version,
        handshake is LegacySecurity ==> handshake@ == vnc::Stage::LegacySecurity,
        handshake is SecurityCount ==> handshake@ == vnc::Stage::SecurityCount,
        handshake is SecurityResult ==> handshake@ == vnc::Stage::SecurityResult,
        handshake is KeyHeader ==> handshake@ == vnc::Stage::KeyHeader,
        handshake is FailureLength ==> handshake@ == vnc::Stage::FailureLength,
        handshake is ServerInit ==> handshake@ == vnc::Stage::ServerInit,
        handshake matches Handshake::SecurityTypes { count } ==> handshake@ == (
        vnc::Stage::SecurityTypes { count: count as nat }),
        handshake matches Handshake::Modulus { generator, length } ==> handshake@ == (
        vnc::Stage::Modulus { generator: generator as nat, length: length as nat }),
        handshake matches Handshake::ServerKey { generator, modulus } ==> handshake@ == (
        vnc::Stage::ServerKey { generator: generator as nat, modulus: modulus@ }),
        handshake matches Handshake::Secret { generator, modulus, server_key } ==> handshake@ == (
        vnc::Stage::Secret {
            generator: generator as nat,
            modulus: modulus@,
            server_key: server_key@,
        }),
        handshake matches Handshake::FailureText { length } ==> handshake@ == (
        vnc::Stage::FailureText { length: length as nat }),
        handshake matches Handshake::ServerName { screen, length } ==> handshake@ == (
        vnc::Stage::ServerName { screen, length: length as nat }),
        handshake matches Handshake::Ready { screen } ==> handshake@ == (vnc::Stage::Ready {
            screen,
        }),
        handshake matches Handshake::Failed { error } ==> handshake@ == (vnc::Stage::Failed {
            reason: error.reason,
            message: error.message@,
        }),
{
}

/// What a session stands for.
pub proof fn sessions_stand_for_their_course(run: SessionRun, stage: SessionStage)
    ensures
        stage is Baseline ==> stage@ == session::Stage::Baseline,
        stage is Launch ==> stage@ == session::Stage::Launch,
        stage is Frame ==> stage@ == session::Stage::Frame,
        stage is First ==> stage@ == session::Stage::First,
        stage is FirstContent ==> stage@ == session::Stage::FirstContent,
        stage is FirstText ==> stage@ == session::Stage::FirstText,
        stage matches SessionStage::Locate { index } ==> stage@ == (session::Stage::Locate {
            index: index as nat,
        }),
        stage matches SessionStage::Click { index, target } ==> stage@ == (session::Stage::Click {
            index: index as nat,
            target,
        }),
        stage matches SessionStage::Settle { index } ==> stage@ == (session::Stage::Settle {
            index: index as nat,
        }),
        stage matches SessionStage::Change { index } ==> stage@ == (session::Stage::Change {
            index: index as nat,
        }),
        stage matches SessionStage::ChangeText { index } ==> stage@ == (
        session::Stage::ChangeText { index: index as nat }),
        stage is Budget ==> stage@ == session::Stage::Budget,
        stage is Finished ==> stage@ == session::Stage::Finished,
        stage matches SessionStage::Failed { error } ==> stage@ == (session::Stage::Failed {
            reason: error.reason,
            message: error.message@,
        }),
        run@.name == run.screenshot_name@,
        run@.clicks == text::views(run.clicks@),
        run@.stage == run.stage@,
        run@.screenshots == text::views(run.screenshots@),
        run@.launch_to_window == run.launch_to_window_ms,
{
}

/// What the reading of an update stands for.
pub proof fn readings_stand_for_their_stages(state: UpdateState)
    ensures
        state is MessageType ==> state@ == UpdateStage::MessageType,
        state is CutHeader ==> state@ == UpdateStage::CutHeader,
        state matches UpdateState::CutText { length } ==> state@ == (UpdateStage::CutText {
            length: length as nat,
        }),
        state is UpdateHeader ==> state@ == UpdateStage::UpdateHeader,
        state matches UpdateState::RectangleHeader { left } ==> state@ == (
        UpdateStage::RectangleHeader { left: left as nat }),
        state matches UpdateState::Row { rectangle, row, left } ==> state@ == (UpdateStage::Row {
            rectangle,
            row: row as nat,
            left: left as nat,
        }),
        state is Done ==> state@ == UpdateStage::Done,
        state matches UpdateState::Failed { error } ==> state@ == (UpdateStage::Failed {
            message: error.message@,
        }),
{
}

/// Results and options stand for what is in them.
pub proof fn results_stand_for_what_is_in_them(
    read: Result<Duration, String>,
    left: Result<Duration, BudgetError>,
    timeout: Option<Duration>,
    captures: Seq<Capture>,
    required: Seq<RequiredPath>,
)
    ensures
        read matches Ok(duration) ==> cli::duration_result(read) == Ok::<nat, Seq<char>>(duration@),
        read matches Err(message) ==> cli::duration_result(read) == Err::<nat, Seq<char>>(message@),
        left matches Ok(duration) ==> process::budget_view(left) == Ok::<nat, BudgetError>(
            duration@,
        ),
        left matches Err(error) ==> process::budget_view(left) == Err::<nat, BudgetError>(error),
        timeout matches Some(duration) ==> recipe::timeout_view(timeout) == Some(duration@),
        timeout is None ==> recipe::timeout_view(timeout) is None,
        workflow::taken_names(captures).len() == captures.len(),
        forall|i: int|
            0 <= i < captures.len() ==> #[trigger] workflow::taken_names(captures)[i]
                == captures[i].name@,
        run::taken_paths(captures).len() == captures.len(),
        forall|i: int|
            0 <= i < captures.len() ==> #[trigger] run::taken_paths(captures)[i]
                == captures[i].path@,
        tools::labels(required).len() == required.len(),
        forall|i: int|
            0 <= i < required.len() ==> #[trigger] tools::labels(required)[i] == required[i].label@,
{
}

/// A step does what it names: its action holds the texts of the step as they were written, and the
/// symbols of its chord.
pub proof fn steps_do_what_they_name(action: Action, raw: RawStep)
    requires
        recipe::is_action_of(action, raw),
    ensures
        action matches Action::Capture(capture) ==> raw.capture == Some(capture),
        action matches Action::ClickText(label) ==> raw.click_text == Some(label),
        action matches Action::WaitText(label) ==> raw.wait_text == Some(label),
        action matches Action::TypeText(typed) ==> raw.type_text == Some(typed),
        action matches Action::SelectWindow(selection) ==> raw.select_window == Some(selection),
        action matches Action::Key(symbols) ==> (raw.key matches Some(chord)
            && recipe::chord_symbols(chord@) == Ok::<Seq<u32>, Seq<char>>(symbols@)),
{
}

} // verus!
