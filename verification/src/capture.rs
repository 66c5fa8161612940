//! Waiting for something worth a screenshot, and taking it.
use crate::number::{decimal, decimal_signed};
use crate::ocr::{
    app_error_text_marker, component_areas_fit, find_ocr_text_matches, find_primary_action_button,
    ocr_centers_fit, ocr_text_contains_label, unambiguous_ocr_text_center, ComponentBox,
};
use crate::process::{tool_output, BudgetError, ToolOutcome};
use crate::result::FailureReason;
use crate::session::SessionError;
use crate::text::{cat2, cat3, cat4, lossy, owned, strings, trim, words};
use crate::time::{Duration, Instant};
use crate::{number, ocr, process, text, time};
use vstd::prelude::*;

verus! {

// ---------------------------------------------------------------------------
// Content that stays

/// How long an app's content has to stay visible, in milliseconds.
pub const FRAME_OBSERVATION_MS: u64 = 750;

/// How often an app's content has to be seen.
pub const MIN_VISIBLE_SAMPLES: usize = 3;

/// Since when, and how often, an app's content has been seen without a break.
#[derive(Debug, Clone, Copy, PartialEq, Eq)]
pub struct FrameObservation {
    pub visible_since: Option<Instant>,
    pub samples: usize,
}

/// One look at the screen: whether there was content, and when that was.
pub struct Sample {
    pub visible: bool,
    pub at: nat,
}

/// How many of the last looks found content without a break.
pub open spec fn visible_run(history: Seq<Sample>) -> nat
    decreases history.len(),
{
    if history.len() == 0 || !history.last().visible {
        0
    } else {
        visible_run(history.drop_last()) + 1
    }
}

/// Whether content stayed: it was found at each of the last looks, at least three times, and over
/// at least 750 milliseconds.
pub open spec fn content_stayed(history: Seq<Sample>) -> bool {
    let run = visible_run(history) as int;
    &&& run >= MIN_VISIBLE_SAMPLES
    &&& time::time_between(history[history.len() - run].at, history.last().at) >= time::millis(
        FRAME_OBSERVATION_MS as nat,
    )
}

impl Default for FrameObservation {
    fn default() -> (out: Self)
        ensures
            out.describes(Seq::empty()),
    {
        FrameObservation { visible_since: None, samples: 0 }
    }
}

impl FrameObservation {
    /// This is what is known after the looks of `history`.
    pub open spec fn describes(&self, history: Seq<Sample>) -> bool {
        let run = visible_run(history) as int;
        &&& self.samples == run
        &&& match self.visible_since {
            None => run == 0,
            Some(since) => 0 < run <= history.len() && since@ == history[history.len() - run].at,
        }
    }

    /// What one look at the screen changes.
    pub open spec fn after(&self, visible: bool, now: Instant) -> FrameObservation {
        if !visible {
            FrameObservation { visible_since: None, samples: 0 }
        } else {
            FrameObservation {
                visible_since: Some(
                    match self.visible_since {
                        Some(since) => since,
                        None => now,
                    },
                ),
                samples: (self.samples + 1) as usize,
            }
        }
    }

    /// Whether content has stayed until `now`.
    pub open spec fn ready(&self, now: Instant) -> bool {
        &&& self.samples >= MIN_VISIBLE_SAMPLES
        &&& self.visible_since matches Some(since) && time::time_between(since@, now@)
            >= time::millis(FRAME_OBSERVATION_MS as nat)
    }

    /// Takes note of one look at the screen: whether content has stayed.
    pub fn observe(&mut self, visible: bool, now: Instant) -> (ready: bool)
        requires
            old(self).samples < usize::MAX,
        ensures
            *final(self) == old(self).after(visible, now),
            ready == final(self).ready(now),
    {
        if !visible {
            self.visible_since = None;
            self.samples = 0;
            return false;
        }
        let since = match self.visible_since {
            Some(since) => since,
            None => now,
        };
        self.visible_since = Some(since);
        self.samples = self.samples + 1;
        self.samples >= MIN_VISIBLE_SAMPLES && now.duration_since(since).nanos
            >= Duration::from_millis(FRAME_OBSERVATION_MS).nanos
    }
}

/// After any looks at the screen, the next one finds the content ready exactly when it has been
/// there at the last three looks or more, without a break and over at least 750 milliseconds.
pub proof fn readiness_needs_content_that_stays(
    seen: FrameObservation,
    history: Seq<Sample>,
    visible: bool,
    now: Instant,
)
    requires
        seen.describes(history),
        seen.samples < usize::MAX,
    ensures
        seen.after(visible, now).describes(history.push(Sample { visible, at: now@ })),
        seen.after(visible, now).ready(now) == content_stayed(
            history.push(Sample { visible, at: now@ }),
        ),
{
    let longer = history.push(Sample { visible, at: now@ });
    assert(longer.drop_last() =~= history);
    assert(longer.last() == (Sample { visible, at: now@ }));
}

// ---------------------------------------------------------------------------
// Trying again until the time is up

/// The seconds of a timeout, as messages tell them.
pub open spec fn whole_seconds(timeout: nat) -> Seq<char> {
    number::decimal_seq(timeout / 1_000_000_000) + "s"@
}

fn seconds_text(timeout: Duration) -> (out: String)
    ensures
        out@ == whole_seconds(timeout@),
{
    cat2(decimal(timeout.as_secs()).as_str(), "s")
}

/// What is told of the last thing that went wrong.
pub open spec fn last_words(last_error: Option<Seq<char>>, otherwise: Seq<char>) -> Seq<char> {
    text::trimmed(
        match last_error {
            Some(message) => message,
            None => otherwise,
        },
    )
}

fn last_error_text(last_error: &Option<String>, otherwise: &str) -> (out: String)
    ensures
        out@ == last_words(text::option_view(*last_error), otherwise@),
{
    match last_error {
        Some(message) => trim(message.as_str()),
        None => trim(otherwise),
    }
}

/// What to do next while something is tried again and again.
#[derive(Debug)]
pub enum Attempt {
    /// Try once.
    Try,
    /// Wait a little, then go on.
    Sleep,
    /// It worked.
    Done,
    /// Give up.
    Fail(SessionError),
}

impl Attempt {
    pub open spec fn fails_with(&self, reason: FailureReason, message: Seq<char>) -> bool {
        *self matches Attempt::Fail(error) && error.says(reason, message)
    }
}

/// The taking of a screenshot, tried again until it works or its time is up.
#[derive(Debug)]
pub struct CaptureWait {
    pub timeout: Duration,
    pub last_error: Option<String>,
}

/// Why no screenshot was taken.
pub open spec fn capture_timeout(timeout: nat, last_error: Option<Seq<char>>) -> Seq<char> {
    "failed to capture screenshot within "@ + whole_seconds(timeout) + ": "@ + last_words(
        last_error,
        "unknown error"@,
    )
}

impl CaptureWait {
    pub fn new(timeout: Duration) -> (out: Self)
        ensures
            out.timeout == timeout,
            out.last_error is None,
    {
        CaptureWait { timeout, last_error: None }
    }

    fn give_up(&self) -> (out: Attempt)
        ensures
            out.fails_with(
                FailureReason::ScreenshotFailed,
                capture_timeout(self.timeout@, text::option_view(self.last_error)),
            ),
    {
        Attempt::Fail(
            SessionError::new(
                FailureReason::ScreenshotFailed,
                cat4(
                    "failed to capture screenshot within ",
                    seconds_text(self.timeout).as_str(),
                    ": ",
                    last_error_text(&self.last_error, "unknown error").as_str(),
                ),
            ),
        )
    }

    /// Whether to try, given the time so far and whether all is well with the processes.
    pub fn begin(&self, elapsed: Duration, health: Result<(), String>) -> (out: Attempt)
        ensures
            elapsed@ >= self.timeout@ ==> out.fails_with(
                FailureReason::ScreenshotFailed,
                capture_timeout(self.timeout@, text::option_view(self.last_error)),
            ),
            elapsed@ < self.timeout@ && health is Ok ==> out is Try,
            elapsed@ < self.timeout@ ==> (health matches Err(message) ==> out.fails_with(
                FailureReason::InternalError,
                message@,
            )),
    {
        if elapsed.nanos >= self.timeout.nanos {
            return self.give_up();
        }
        match health {
            Ok(()) => Attempt::Try,
            Err(message) => Attempt::Fail(SessionError::internal(message.as_str())),
        }
    }

    /// What to do after a try.
    pub fn tried(&mut self, result: Result<(), SessionError>) -> (out: Attempt)
        ensures
            final(self).timeout == old(self).timeout,
            result is Ok ==> out is Done && final(self).last_error == old(self).last_error,
            result matches Err(error) ==> out is Sleep && final(self).last_error == Some(
                error.message,
            ),
    {
        match result {
            Ok(()) => Attempt::Done,
            Err(error) => {
                self.last_error = Some(error.message);
                Attempt::Sleep
            },
        }
    }

    /// What to do after a wait.
    pub fn slept(&mut self, result: Result<(), String>) -> (out: Attempt)
        ensures
            final(self).timeout == old(self).timeout,
            result is Ok ==> out is Try && final(self).last_error == old(self).last_error,
            result matches Err(message) ==> out.fails_with(
                FailureReason::ScreenshotFailed,
                capture_timeout(old(self).timeout@, Some(message@)),
            ),
    {
        match result {
            Ok(()) => Attempt::Try,
            Err(message) => {
                self.last_error = Some(message);
                self.give_up()
            },
        }
    }
}

/// The taking of a screenshot that differs from the one before a click.
#[derive(Debug)]
pub struct ChangeWait {
    pub click_text: String,
    pub timeout: Duration,
    pub last_error: Option<String>,
}

/// Why no changed screenshot was taken.
pub open spec fn change_timeout(
    click_text: Seq<char>,
    timeout: nat,
    last_error: Option<Seq<char>>,
) -> Seq<char> {
    "failed to capture screenshot after clicking '"@ + click_text + "' within "@ + whole_seconds(
        timeout,
    ) + ": "@ + last_words(last_error, "unknown error"@)
}

/// What a new screenshot shows.
#[derive(Debug, Clone, Copy, PartialEq, Eq, Structural)]
pub struct Comparison {
    pub has_content: bool,
    pub changed: bool,
}

/// What came of a try to take a changed screenshot.
#[derive(Debug)]
pub enum ChangeTry {
    /// A screenshot was taken and looked at.
    Compared(Comparison),
    /// None was taken.
    Missed(SessionError),
    /// One was taken but could not be looked at.
    Unreadable(SessionError),
}

impl ChangeWait {
    pub fn new(click_text: &str, timeout: Duration) -> (out: Self)
        ensures
            out.click_text@ == click_text@,
            out.timeout == timeout,
            out.last_error is None,
    {
        ChangeWait { click_text: owned(click_text), timeout, last_error: None }
    }

    /// Whether to try, given the time so far.
    pub fn begin(&self, elapsed: Duration) -> (out: Attempt)
        ensures
            elapsed@ < self.timeout@ ==> out is Try,
            elapsed@ >= self.timeout@ ==> out.fails_with(
                FailureReason::ScreenshotFailed,
                change_timeout(
                    self.click_text@,
                    self.timeout@,
                    text::option_view(self.last_error),
                ),
            ),
    {
        if elapsed.nanos < self.timeout.nanos {
            return Attempt::Try;
        }
        let head = cat3(
            "failed to capture screenshot after clicking '",
            self.click_text.as_str(),
            "' within ",
        );
        Attempt::Fail(
            SessionError::new(
                FailureReason::ScreenshotFailed,
                cat4(
                    head.as_str(),
                    seconds_text(self.timeout).as_str(),
                    ": ",
                    last_error_text(&self.last_error, "unknown error").as_str(),
                ),
            ),
        )
    }

    /// What to do after a try.
    pub fn tried(&mut self, result: ChangeTry) -> (out: Attempt)
        ensures
            final(self).timeout == old(self).timeout,
            final(self).click_text == old(self).click_text,
            match result {
                ChangeTry::Compared(seen) => if seen.has_content && seen.changed {
                    out is Done && final(self).last_error == old(self).last_error
                } else {
                    out is Sleep && text::option_view(final(self).last_error) == Some(
                        "screenshot did not change after click"@,
                    )
                },
                ChangeTry::Missed(error) => out is Sleep && final(self).last_error == Some(
                    error.message,
                ),
                ChangeTry::Unreadable(error) => out == Attempt::Fail(error),
            },
    {
        match result {
            ChangeTry::Compared(seen) => {
                if seen.has_content && seen.changed {
                    Attempt::Done
                } else {
                    self.last_error = Some(owned("screenshot did not change after click"));
                    Attempt::Sleep
                }
            },
            ChangeTry::Missed(error) => {
                self.last_error = Some(error.message);
                Attempt::Sleep
            },
            ChangeTry::Unreadable(error) => Attempt::Fail(error),
        }
    }

    /// What to do after a wait.
    pub fn slept(&self, result: Result<(), String>) -> (out: Attempt)
        ensures
            result is Ok ==> out is Try,
            result matches Err(message) ==> out.fails_with(
                FailureReason::ScreenshotFailed,
                message@,
            ),
    {
        match result {
            Ok(()) => Attempt::Try,
            Err(message) => Attempt::Fail(
                SessionError::new(FailureReason::ScreenshotFailed, message),
            ),
        }
    }
}

// ---------------------------------------------------------------------------
// The first frame of an app

/// The wait for an app's first lasting content.
#[derive(Debug)]
pub struct FrameWait {
    pub timeout: Duration,
    pub observation: FrameObservation,
}

/// Why the wait for an app's content ended without it.
pub open spec fn frame_timeout(timeout: nat) -> Seq<char> {
    "no persistent visible app content appeared within "@ + whole_seconds(timeout)
}

fn frame_timeout_error(timeout: Duration) -> (out: SessionError)
    ensures
        out.says(FailureReason::WindowTimeout, frame_timeout(timeout@)),
{
    SessionError::new(
        FailureReason::WindowTimeout,
        cat2("no persistent visible app content appeared within ", seconds_text(timeout).as_str()),
    )
}

/// What a look at the screen leads to: lines for the log, and what to do next.
#[derive(Debug)]
pub struct FrameStep {
    pub log: Vec<String>,
    pub next: Attempt,
}

/// The lines for the log after a look at the screen.
pub open spec fn frame_log(seen: FrameObservation, visible: bool, ready: bool) -> Seq<Seq<char>> {
    let first = if visible && seen.samples == 0 {
        seq!["first visible sample; observing app content"@]
    } else {
        Seq::empty()
    };
    let last = if ready {
        seq!["visible app content persisted for at least 750ms across at least 3 samples"@]
    } else {
        Seq::empty()
    };
    first + last
}

impl FrameWait {
    pub fn new(timeout: Duration) -> (out: Self)
        ensures
            out.timeout == timeout,
            out.observation.describes(Seq::empty()),
    {
        FrameWait { timeout, observation: FrameObservation { visible_since: None, samples: 0 } }
    }

    /// Whether to look, given the time so far and whether all is well with the processes.
    pub fn begin(&self, elapsed: Duration, health: Result<(), String>) -> (out: Attempt)
        ensures
            elapsed@ >= self.timeout@ ==> out.fails_with(
                FailureReason::WindowTimeout,
                frame_timeout(self.timeout@),
            ),
            elapsed@ < self.timeout@ && health is Ok ==> out is Try,
            elapsed@ < self.timeout@ ==> (health matches Err(message) ==> out.fails_with(
                FailureReason::InternalError,
                message@,
            )),
    {
        if elapsed.nanos >= self.timeout.nanos {
            return Attempt::Fail(frame_timeout_error(self.timeout));
        }
        match health {
            Ok(()) => Attempt::Try,
            Err(message) => Attempt::Fail(SessionError::internal(message.as_str())),
        }
    }

    /// What to do after a look: an app is visible where the screen differs from the empty one and
    /// shows something.
    pub fn looked(&mut self, result: Result<Comparison, SessionError>, now: Instant) -> (out:
        FrameStep)
        requires
            old(self).observation.samples < usize::MAX,
        ensures
            final(self).timeout == old(self).timeout,
            result matches Err(error) ==> {
                &&& out.next == Attempt::Fail(error)
                &&& out.log@.len() == 0
                &&& final(self).observation == old(self).observation
            },
            result matches Ok(seen) ==> {
                let visible = seen.changed && seen.has_content;
                let after = old(self).observation.after(visible, now);
                &&& final(self).observation == after
                &&& out.next == if after.ready(now) {
                    Attempt::Done
                } else {
                    Attempt::Sleep
                }
                &&& text::views(out.log@) == frame_log(
                    old(self).observation,
                    visible,
                    after.ready(now),
                )
            },
    {
        let seen = match result {
            Ok(seen) => seen,
            Err(error) => return FrameStep { log: Vec::new(), next: Attempt::Fail(error) },
        };
        let visible = seen.changed && seen.has_content;
        let mut log: Vec<String> = Vec::new();
        if visible && self.observation.samples == 0 {
            log.push(owned("first visible sample; observing app content"));
        }
        let ready = self.observation.observe(visible, now);
        if ready {
            log.push(
                owned("visible app content persisted for at least 750ms across at least 3 samples"),
            );
        }
        assert(text::views(log@) =~= frame_log(old(self).observation, visible, ready));
        FrameStep {
            log,
            next: if ready {
                Attempt::Done
            } else {
                Attempt::Sleep
            },
        }
    }

    /// What to do after a wait. `overall` is the time that the whole run has left.
    pub fn slept(&self, result: Result<(), String>, overall: Result<Duration, BudgetError>) -> (out:
        Attempt)
        ensures
            result is Ok ==> out is Try,
            result matches Err(message) ==> match overall {
                Ok(_) => out.fails_with(FailureReason::WindowTimeout, message@),
                Err(error) => out.fails_with(
                    FailureReason::InternalError,
                    process::budget_message(error),
                ),
            },
    {
        match result {
            Ok(()) => Attempt::Try,
            Err(message) => match overall {
                Ok(_) => Attempt::Fail(SessionError::new(FailureReason::WindowTimeout, message)),
                Err(error) => Attempt::Fail(SessionError::internal(error.message())),
            },
        }
    }

    /// The error to report: the end of the wait's own time, unless the whole run's time is up too.
    pub fn settle(
        &self,
        error: SessionError,
        now: Instant,
        deadline: Instant,
        overall: Result<Duration, BudgetError>,
    ) -> (out: SessionError)
        ensures
            now@ >= deadline@ && overall is Ok ==> out.says(
                FailureReason::WindowTimeout,
                frame_timeout(self.timeout@),
            ),
            !(now@ >= deadline@ && overall is Ok) ==> out == error,
    {
        if now.nanos >= deadline.nanos && overall.is_ok() {
            frame_timeout_error(self.timeout)
        } else {
            error
        }
    }
}

// ---------------------------------------------------------------------------
// What tools say of screenshots

/// How many pixels of a screenshot may differ before it counts as another one.
pub const SCREENSHOT_DIFF_PIXEL_THRESHOLD: u64 = 1024;

/// The same after a click.
pub const POST_CLICK_SCREENSHOT_DIFF_PIXEL_THRESHOLD: u64 = 25;

pub fn screenshot_diff_exceeds_threshold(different_pixels: u64, threshold: u64) -> (yes: bool)
    ensures
        yes == (different_pixels > threshold),
{
    different_pixels > threshold
}

/// The words of what the comparison tool wrote. The first that is a number is its metric.
pub fn metric_words(stderr: &[u8]) -> (out: Vec<String>)
    ensures
        text::views(out@) == text::words_of(text::utf8_lossy(stderr@)),
{
    words(lossy(stderr).as_str())
}

/// The first number among words that are numbers or not.
pub open spec fn first_number(numbers: Seq<Option<u64>>) -> Option<u64>
    decreases numbers.len(),
{
    if numbers.len() == 0 {
        None
    } else if numbers[0] is Some {
        numbers[0]
    } else {
        first_number(numbers.drop_first())
    }
}

/// The number of pixels that differ, from the words of the comparison tool: each as a whole
/// number, where it is one.
pub fn parse_absolute_error_metric(numbers: &Vec<Option<u64>>) -> (out: Option<u64>)
    ensures
        out == first_number(numbers@),
{
    let mut i: usize = 0;
    assert(numbers@.skip(0) =~= numbers@);
    while i < numbers.len()
        invariant
            i <= numbers@.len(),
            first_number(numbers@) == first_number(numbers@.skip(i as int)),
        decreases numbers@.len() - i,
    {
        if numbers[i].is_some() {
            return numbers[i];
        }
        assert(numbers@.skip(i as int).drop_first() =~= numbers@.skip(i + 1));
        i = i + 1;
    }
    None
}

/// Whether two screenshots differ, from what the comparison tool did. `metric` is the number of
/// pixels that it reports, where it reports one.
pub fn screenshots_differ_by_threshold(
    outcome: ToolOutcome,
    metric: Option<u64>,
    pixel_threshold: u64,
) -> (out: Result<bool, SessionError>)
    ensures
        outcome matches ToolOutcome::Finished { code: Some(1), .. } ==> out == Ok::<
            bool,
            SessionError,
        >(
            match metric {
                Some(pixels) => pixels > pixel_threshold,
                None => true,
            },
        ),
        !(outcome matches ToolOutcome::Finished { code: Some(1), .. }) ==> match process::tool_failure(
            outcome,
            "compare"@,
            "failed to compare screenshots with ImageMagick"@,
            "failed to run ImageMagick compare"@,
        ) {
            None => out == Ok::<bool, SessionError>(false),
            Some((reason, message)) => out matches Err(error) && error.says(reason, message),
        },
{
    match &outcome {
        ToolOutcome::Finished { code: Some(1), .. } => {
            return Ok(
                match metric {
                    Some(pixels) => screenshot_diff_exceeds_threshold(pixels, pixel_threshold),
                    None => true,
                },
            );
        },
        _ => {},
    }
    match tool_output(
        outcome,
        "compare",
        "failed to compare screenshots with ImageMagick",
        "failed to run ImageMagick compare",
    ) {
        Ok(_) => Ok(false),
        Err(error) => Err(error),
    }
}

/// Whether a screenshot shows something, from what the inspection tool did. `deviates` tells
/// whether the standard deviation that it reports is large enough, where it reports one.
pub fn screenshot_has_content(outcome: ToolOutcome, deviates: Option<bool>) -> (out: Result<
    bool,
    SessionError,
>)
    ensures
        match process::tool_failure(
            outcome,
            "identify"@,
            "failed to inspect screenshot with ImageMagick"@,
            "failed to run ImageMagick identify"@,
        ) {
            Some((reason, message)) => out matches Err(error) && error.says(reason, message),
            None => match deviates {
                Some(yes) => out == Ok::<bool, SessionError>(yes),
                None => out matches Err(error) && error.says(
                    FailureReason::ScreenshotFailed,
                    "failed to parse ImageMagick standard deviation: "@ + text::trimmed(
                        text::utf8_lossy(outcome->stdout@),
                    ),
                ),
            },
        },
{
    match tool_output(
        outcome,
        "identify",
        "failed to inspect screenshot with ImageMagick",
        "failed to run ImageMagick identify",
    ) {
        Err(error) => Err(error),
        Ok(output) => match deviates {
            Some(yes) => Ok(yes),
            None => Err(
                SessionError::new(
                    FailureReason::ScreenshotFailed,
                    cat2(
                        "failed to parse ImageMagick standard deviation: ",
                        trim(lossy(&output.stdout).as_str()).as_str(),
                    ),
                ),
            ),
        },
    }
}

/// The marker of an error in the text of a screenshot, from what the recognition tool did, and the
/// line for the log.
pub fn detect_app_error_text(outcome: ToolOutcome) -> (out: Result<
    (Option<&'static str>, String),
    SessionError,
>)
    ensures
        match process::tool_failure(
            outcome,
            "tesseract"@,
            "failed to OCR screenshot with tesseract"@,
            "failed to run tesseract for screenshot OCR"@,
        ) {
            Some((reason, message)) => out matches Err(error) && error.says(reason, message),
            None => {
                let found = ocr::first_marker(
                    ocr::flowing_text(text::utf8_lossy(outcome->stdout@)),
                    0,
                );
                out matches Ok((marker, log)) && match found {
                    None => marker is None && log@ == "screenshot OCR found no app-error markers"@,
                    Some(expected) => (marker matches Some(text) && text@ == expected) && log@
                        == "screenshot OCR matched app-error marker '"@ + expected + "'"@,
                }
            },
        },
{
    match tool_output(
        outcome,
        "tesseract",
        "failed to OCR screenshot with tesseract",
        "failed to run tesseract for screenshot OCR",
    ) {
        Err(error) => Err(error),
        Ok(output) => match app_error_text_marker(lossy(&output.stdout).as_str()) {
            Some(marker) => Ok(
                (Some(marker), cat3("screenshot OCR matched app-error marker '", marker, "'")),
            ),
            None => Ok((None, owned("screenshot OCR found no app-error markers"))),
        },
    }
}

/// The failure of an app that shows an error.
pub fn app_error(marker: &str) -> (out: SessionError)
    ensures
        out.says(
            FailureReason::AppErrorWindow,
            "screenshot text matched app error marker '"@ + marker@ + "'"@,
        ),
{
    SessionError::new(
        FailureReason::AppErrorWindow,
        cat3("screenshot text matched app error marker '", marker, "'"),
    )
}

/// The table of words on a screenshot, from what the recognition tool did.
pub fn click_text_table(outcome: ToolOutcome) -> (out: Result<String, SessionError>)
    ensures
        match process::tool_failure(
            outcome,
            "tesseract"@,
            "failed to locate click text with tesseract"@,
            "failed to run tesseract for click text OCR"@,
        ) {
            Some((reason, message)) => out matches Err(error) && error.says(reason, message),
            None => out matches Ok(table) && table@ == text::utf8_lossy(outcome->stdout@),
        },
{
    match tool_output(
        outcome,
        "tesseract",
        "failed to locate click text with tesseract",
        "failed to run tesseract for click text OCR",
    ) {
        Err(error) => Err(error),
        Ok(output) => Ok(lossy(&output.stdout)),
    }
}

/// The report of the components of a screenshot, from what the conversion tool did: what it wrote
/// to its output, and then what it wrote to its error output.
pub fn component_report(outcome: ToolOutcome) -> (out: Result<String, SessionError>)
    ensures
        match process::tool_failure(
            outcome,
            "convert"@,
            "failed to locate primary action button with ImageMagick"@,
            "failed to run ImageMagick convert for button detection"@,
        ) {
            Some((reason, message)) => out matches Err(error) && error.says(reason, message),
            None => out matches Ok(report) && report@ == text::utf8_lossy(outcome->stdout@) + "\n"@
                + text::utf8_lossy(outcome->stderr@),
        },
{
    match tool_output(
        outcome,
        "convert",
        "failed to locate primary action button with ImageMagick",
        "failed to run ImageMagick convert for button detection",
    ) {
        Err(error) => Err(error),
        Ok(output) => Ok(
            cat3(
                lossy(&output.stdout).as_str(),
                "\n",
                lossy(&output.stderr).as_str(),
            ),
        ),
    }
}

/// Whether a button's picture could be cut out, from what the conversion tool did.
pub fn button_crop(outcome: ToolOutcome) -> (out: Result<(), SessionError>)
    ensures
        match process::tool_failure(
            outcome,
            "convert"@,
            "failed to crop primary action button with ImageMagick"@,
            "failed to run ImageMagick convert for button crop"@,
        ) {
            Some((reason, message)) => out matches Err(error) && error.says(reason, message),
            None => out is Ok,
        },
{
    match tool_output(
        outcome,
        "convert",
        "failed to crop primary action button with ImageMagick",
        "failed to run ImageMagick convert for button crop",
    ) {
        Err(error) => Err(error),
        Ok(_) => Ok(()),
    }
}

/// Whether a button's picture bears the wanted label, from what the recognition tool did.
pub fn button_bears_label(outcome: ToolOutcome, wanted: &str) -> (out: Result<bool, SessionError>)
    ensures
        match process::tool_failure(
            outcome,
            "tesseract"@,
            "failed to OCR primary action button crop with tesseract"@,
            "failed to run tesseract for button crop OCR"@,
        ) {
            Some((reason, message)) => out matches Err(error) && error.says(reason, message),
            None => out == Ok::<bool, SessionError>(
                ocr::normal_words(wanted@).len() > 0 && text::occurs(
                    ocr::normal_words(text::utf8_lossy(outcome->stdout@)),
                    ocr::normal_words(wanted@),
                ),
            ),
        },
{
    match tool_output(
        outcome,
        "tesseract",
        "failed to OCR primary action button crop with tesseract",
        "failed to run tesseract for button crop OCR",
    ) {
        Err(error) => Err(error),
        Ok(output) => Ok(ocr_text_contains_label(lossy(&output.stdout).as_str(), wanted)),
    }
}

// ---------------------------------------------------------------------------
// Where to click

/// The search for the place to click.
pub enum Search {
    Table,
    Components { matches: Seq<(int, int)> },
    Crop { matches: Seq<(int, int)>, button: ComponentBox },
    Label { matches: Seq<(int, int)>, button: ComponentBox },
    Found { target: Option<(int, int)>, by_button: bool },
    Failed { reason: FailureReason, message: Seq<char> },
    Unfit,
}

/// The search for the place to click: what it waits for, or how it ended.
#[derive(Debug)]
pub enum TargetSearch {
    /// A table of the words on the screenshot.
    Table,
    /// A report of the components of the screenshot that have the color of buttons.
    Components { matches: Vec<(i32, i32)> },
    /// A picture of the one button.
    Crop { matches: Vec<(i32, i32)>, button: ComponentBox },
    /// The text on that picture.
    Label { matches: Vec<(i32, i32)>, button: ComponentBox },
    /// The place, where there is one, and whether it was taken from a button.
    Found { target: Option<(i32, i32)>, by_button: bool },
    Failed { error: SessionError },
    /// A tool reported places that 32-bit numbers cannot hold.
    Unfit,
}

/// A point as a pair of numbers.
pub open spec fn point(at: (i32, i32)) -> (int, int) {
    (at.0 as int, at.1 as int)
}

impl View for TargetSearch {
    type V = Search;

    open spec fn view(&self) -> Search {
        match *self {
            TargetSearch::Table => Search::Table,
            TargetSearch::Components { matches } => Search::Components {
                matches: ocr::points(matches@),
            },
            TargetSearch::Crop { matches, button } => Search::Crop {
                matches: ocr::points(matches@),
                button,
            },
            TargetSearch::Label { matches, button } => Search::Label {
                matches: ocr::points(matches@),
                button,
            },
            TargetSearch::Found { target, by_button } => Search::Found {
                target: match target {
                    Some(at) => Some(point(at)),
                    None => None,
                },
                by_button,
            },
            TargetSearch::Failed { error } => Search::Failed {
                reason: error.reason,
                message: error.message@,
            },
            TargetSearch::Unfit => Search::Unfit,
        }
    }
}

/// How a search ends that found no fitting button: with the one place of the text.
pub open spec fn settled(matches: Seq<(int, int)>, wanted: Seq<char>) -> Search {
    if matches.len() == 0 {
        Search::Found { target: None, by_button: false }
    } else if matches.len() == 1 {
        Search::Found { target: Some(matches[0]), by_button: false }
    } else {
        Search::Failed {
            reason: FailureReason::ScreenshotFailed,
            message: "click text '"@ + wanted
                + "' matched multiple OCR locations and no matching primary action button was found"@,
        }
    }
}

/// The messages that tell of a tool that failed a search, at each stage.
pub open spec fn search_failure(stage: Search, outcome: ToolOutcome) -> Option<
    (FailureReason, Seq<char>),
> {
    match stage {
        Search::Table => process::tool_failure(
            outcome,
            "tesseract"@,
            "failed to locate click text with tesseract"@,
            "failed to run tesseract for click text OCR"@,
        ),
        Search::Components { .. } => process::tool_failure(
            outcome,
            "convert"@,
            "failed to locate primary action button with ImageMagick"@,
            "failed to run ImageMagick convert for button detection"@,
        ),
        Search::Crop { .. } => process::tool_failure(
            outcome,
            "convert"@,
            "failed to crop primary action button with ImageMagick"@,
            "failed to run ImageMagick convert for button crop"@,
        ),
        _ => process::tool_failure(
            outcome,
            "tesseract"@,
            "failed to OCR primary action button crop with tesseract"@,
            "failed to run tesseract for button crop OCR"@,
        ),
    }
}

/// The report of components that a tool wrote.
pub open spec fn reported(outcome: ToolOutcome) -> Seq<char> {
    text::utf8_lossy(outcome->stdout@) + "\n"@ + text::utf8_lossy(outcome->stderr@)
}

/// Where a search goes after the tool that it waited for.
pub open spec fn search_step(stage: Search, wanted: Seq<char>, outcome: ToolOutcome) -> Search {
    if stage is Found || stage is Failed || stage is Unfit {
        stage
    } else {
        match search_failure(stage, outcome) {
            Some((reason, message)) => Search::Failed { reason, message },
            None => match stage {
                Search::Table => {
                    let table = text::utf8_lossy(outcome->stdout@);
                    if ocr::centers_fit(table, wanted) {
                        Search::Components {
                            matches: ocr::text_centers(
                                ocr::table_words(table),
                                ocr::normal_words(wanted),
                            ),
                        }
                    } else {
                        Search::Unfit
                    }
                },
                Search::Components { matches } => {
                    let lines = text::lines_of(reported(outcome));
                    if !ocr::areas_fit(lines) {
                        Search::Unfit
                    } else if ocr::reported_buttons(lines).len() == 1 {
                        Search::Crop { matches, button: ocr::reported_buttons(lines)[0] }
                    } else {
                        settled(matches, wanted)
                    }
                },
                Search::Crop { matches, button } => Search::Label { matches, button },
                Search::Label { matches, button } => {
                    let labelled = ocr::normal_words(wanted).len() > 0 && text::occurs(
                        ocr::normal_words(text::utf8_lossy(outcome->stdout@)),
                        ocr::normal_words(wanted),
                    );
                    if !labelled {
                        settled(matches, wanted)
                    } else if !button.center_fits() {
                        Search::Unfit
                    } else {
                        Search::Found {
                            target: Some(
                                (
                                    button.x + ocr::half(button.width as int),
                                    button.y + ocr::half(button.height as int),
                                ),
                            ),
                            by_button: true,
                        }
                    }
                },
                _ => stage,
            },
        }
    }
}

fn settle(matches: &[(i32, i32)], wanted: &str) -> (out: TargetSearch)
    ensures
        out@ == settled(ocr::points(matches@), wanted@),
        out matches TargetSearch::Failed { error } ==> error.screenshots@.len() == 0,
{
    match unambiguous_ocr_text_center(matches, wanted) {
        Ok(target) => TargetSearch::Found { target, by_button: false },
        Err(error) => TargetSearch::Failed { error },
    }
}

/// A command that looks at a picture, or at two: what stands before them on its line, and what
/// stands behind.
#[derive(Debug)]
pub struct ToolCall {
    pub program: String,
    pub before: Vec<String>,
    pub after: Vec<String>,
}

impl ToolCall {
    pub open spec fn is(
        &self,
        program: Seq<char>,
        before: Seq<Seq<char>>,
        after: Seq<Seq<char>>,
    ) -> bool {
        &&& self.program@ == program
        &&& text::views(self.before@) == before
        &&& text::views(self.after@) == after
    }
}

/// What follows the picture on the line that paints everything black but the color of buttons,
/// and reports the components.
pub open spec fn component_arguments() -> Seq<Seq<char>> {
    seq![
        "-alpha"@,
        "off"@,
        "-fuzz"@,
        "18%"@,
        "-fill"@,
        "black"@,
        "+opaque"@,
        "#3584e4"@,
        "-fill"@,
        "white"@,
        "-opaque"@,
        "#3584e4"@,
        "-define"@,
        "connected-components:verbose=true"@,
        "-connected-components"@,
        "8"@,
        "null:"@,
    ]
}

/// What a box is called on the line that cuts it out.
pub open spec fn geometry(button: ComponentBox) -> Seq<char> {
    number::decimal_int(button.width as int) + "x"@ + number::decimal_int(button.height as int)
        + "+"@ + number::decimal_int(button.x as int) + "+"@ + number::decimal_int(button.y as int)
}

/// A command whose arguments follow its picture.
fn call_on_picture(program: &str, after: Vec<&str>) -> (out: ToolCall)
    ensures
        out.is(program@, Seq::empty(), text::str_views(after@)),
{
    let before: Vec<String> = Vec::new();
    assert(text::views(before@) =~= Seq::empty());
    ToolCall { program: owned(program), before, after: strings(after) }
}

/// The command that compares two screenshots.
pub fn compare_call() -> (out: ToolCall)
    ensures
        out.is("compare"@, seq!["-metric"@, "AE"@], seq!["null:"@]),
{
    let out = ToolCall {
        program: owned("compare"),
        before: strings(vec!["-metric", "AE"]),
        after: strings(vec!["null:"]),
    };
    assert(text::views(out.before@) =~= seq!["-metric"@, "AE"@]);
    assert(text::views(out.after@) =~= seq!["null:"@]);
    out
}

/// The command that measures how much a screenshot shows.
pub fn content_call() -> (out: ToolCall)
    ensures
        out.is("identify"@, seq!["-format"@, "%[fx:standard_deviation]"@], Seq::empty()),
{
    let out = ToolCall {
        program: owned("identify"),
        before: strings(vec!["-format", "%[fx:standard_deviation]"]),
        after: Vec::new(),
    };
    assert(text::views(out.before@) =~= seq!["-format"@, "%[fx:standard_deviation]"@]);
    assert(text::views(out.after@) =~= Seq::empty());
    out
}

/// The command that reads the text of a screenshot.
pub fn text_call() -> (out: ToolCall)
    ensures
        out.is("tesseract"@, Seq::empty(), seq!["stdout"@, "--psm"@, "6"@]),
{
    let out = call_on_picture("tesseract", vec!["stdout", "--psm", "6"]);
    assert(text::views(out.after@) =~= seq!["stdout"@, "--psm"@, "6"@]);
    out
}

impl TargetSearch {
    pub fn new() -> (out: Self)
        ensures
            out@ == Search::Table,
    {
        TargetSearch::Table
    }

    /// The command to run next, on the screenshot, or, for the label, on the picture of the
    /// button. The command that makes this picture is followed by the name of the picture.
    pub fn call(&self) -> (out: Option<ToolCall>)
        ensures
            match self@ {
                Search::Table => out matches Some(call) && call.is(
                    "tesseract"@,
                    Seq::empty(),
                    seq!["stdout"@, "--psm"@, "6"@, "tsv"@],
                ),
                Search::Components { .. } => out matches Some(call) && call.is(
                    "convert"@,
                    Seq::empty(),
                    component_arguments(),
                ),
                Search::Crop { button, .. } => out matches Some(call) && call.is(
                    "convert"@,
                    Seq::empty(),
                    seq![
                        "-crop"@,
                        geometry(button),
                        "-resize"@,
                        "400%"@,
                        "-alpha"@,
                        "off"@,
                        "-colorspace"@,
                        "Gray"@,
                    ],
                ),
                Search::Label { .. } => out matches Some(call) && call.is(
                    "tesseract"@,
                    Seq::empty(),
                    seq!["stdout"@, "--psm"@, "7"@],
                ),
                _ => out is None,
            },
    {
        match self {
            TargetSearch::Table => {
                let call = call_on_picture("tesseract", vec!["stdout", "--psm", "6", "tsv"]);
                assert(text::views(call.after@) =~= seq!["stdout"@, "--psm"@, "6"@, "tsv"@]);
                Some(call)
            },
            TargetSearch::Components { .. } => {
                let call = call_on_picture(
                    "convert",
                    vec![
                        "-alpha",
                        "off",
                        "-fuzz",
                        "18%",
                        "-fill",
                        "black",
                        "+opaque",
                        "#3584e4",
                        "-fill",
                        "white",
                        "-opaque",
                        "#3584e4",
                        "-define",
                        "connected-components:verbose=true",
                        "-connected-components",
                        "8",
                        "null:",
                    ],
                );
                assert(text::views(call.after@) =~= component_arguments());
                Some(call)
            },
            TargetSearch::Crop { button, .. } => {
                let cut = button.crop_geometry();
                let call = call_on_picture(
                    "convert",
                    vec![
                        "-crop",
                        cut.as_str(),
                        "-resize",
                        "400%",
                        "-alpha",
                        "off",
                        "-colorspace",
                        "Gray",
                    ],
                );
                assert(text::views(call.after@) =~= seq![
                    "-crop"@,
                    geometry(*button),
                    "-resize"@,
                    "400%"@,
                    "-alpha"@,
                    "off"@,
                    "-colorspace"@,
                    "Gray"@,
                ]);
                Some(call)
            },
            TargetSearch::Label { .. } => {
                let call = call_on_picture("tesseract", vec!["stdout", "--psm", "7"]);
                assert(text::views(call.after@) =~= seq!["stdout"@, "--psm"@, "7"@]);
                Some(call)
            },
            _ => None,
        }
    }

    /// Goes on with what became of the command, in the search for `wanted`.
    pub fn advance(self, wanted: &str, outcome: ToolOutcome) -> (out: Self)
        ensures
            out@ == search_step(self@, wanted@, outcome),
            !(self is Failed) ==> (out matches TargetSearch::Failed { error }
                ==> error.screenshots@.len() == 0),
    {
        match self {
            TargetSearch::Table => match click_text_table(outcome) {
                Err(error) => TargetSearch::Failed { error },
                Ok(table) => {
                    if !ocr_centers_fit(table.as_str(), wanted) {
                        return TargetSearch::Unfit;
                    }
                    TargetSearch::Components {
                        matches: find_ocr_text_matches(table.as_str(), wanted),
                    }
                },
            },
            TargetSearch::Components { matches } => match component_report(outcome) {
                Err(error) => TargetSearch::Failed { error },
                Ok(report) => {
                    if !component_areas_fit(report.as_str()) {
                        return TargetSearch::Unfit;
                    }
                    match find_primary_action_button(report.as_str()) {
                        Some(button) => TargetSearch::Crop { matches, button },
                        None => settle(&matches, wanted),
                    }
                },
            },
            TargetSearch::Crop { matches, button } => match button_crop(outcome) {
                Err(error) => TargetSearch::Failed { error },
                Ok(()) => TargetSearch::Label { matches, button },
            },
            TargetSearch::Label { matches, button } => match button_bears_label(outcome, wanted) {
                Err(error) => TargetSearch::Failed { error },
                Ok(labelled) => {
                    if !labelled {
                        return settle(&matches, wanted);
                    }
                    if !button.has_center() {
                        return TargetSearch::Unfit;
                    }
                    TargetSearch::Found { target: Some(button.center()), by_button: true }
                },
            },
            TargetSearch::Found { target, by_button } => TargetSearch::Found { target, by_button },
            TargetSearch::Failed { error } => TargetSearch::Failed { error },
            TargetSearch::Unfit => TargetSearch::Unfit,
        }
    }
}

/// The line for the log when a button is clicked instead of its text.
pub fn button_log(wanted: &str, target: (i32, i32)) -> (out: String)
    ensures
        out@ == "using matching primary action button visual fallback for click text '"@ + wanted@
            + "' at "@ + number::decimal_int(target.0 as int) + ","@ + number::decimal_int(
            target.1 as int,
        ),
{
    let head = cat3(
        "using matching primary action button visual fallback for click text '",
        wanted,
        "' at ",
    );
    cat4(
        head.as_str(),
        decimal_signed(target.0 as i64).as_str(),
        ",",
        decimal_signed(target.1 as i64).as_str(),
    )
}

/// A button that bears the wanted label is clicked, even where its text stands in several places.
pub proof fn labelled_buttons_win(
    matches: Seq<(int, int)>,
    button: ComponentBox,
    wanted: Seq<char>,
    outcome: ToolOutcome,
)
    requires
        search_failure(Search::Label { matches, button }, outcome) is None,
        ocr::normal_words(wanted).len() > 0,
        text::occurs(
            ocr::normal_words(text::utf8_lossy(outcome->stdout@)),
            ocr::normal_words(wanted),
        ),
        button.center_fits(),
    ensures
        search_step(Search::Label { matches, button }, wanted, outcome) == (Search::Found {
            target: Some(
                (
                    button.x + ocr::half(button.width as int),
                    button.y + ocr::half(button.height as int),
                ),
            ),
            by_button: true,
        }),
{
}

/// Nothing is clicked by guess: without a fitting button, a text with several places fails the
/// search.
pub proof fn ambiguous_texts_are_not_clicked(matches: Seq<(int, int)>, wanted: Seq<char>)
    requires
        matches.len() > 1,
    ensures
        settled(matches, wanted) is Failed,
{
}

} // verus!
