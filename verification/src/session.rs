//! A run of one app on a Wayland display: what is watched, what is captured and what went wrong.
use crate::capture::app_error;
use crate::number::padded3;
use crate::process::remaining;
use crate::result::FailureReason;
use crate::text::{
    ascii_alnum, ascii_lower_char, cat2, cat3, cat4, chars, join, owned, split,
};
use crate::time::{Duration, Instant};
use crate::{number, process, text, time};
use vstd::prelude::*;

verus! {

/// Why a session failed, with the screenshots it left behind.
#[derive(Debug, Clone)]
pub struct SessionError {
    pub reason: FailureReason,
    pub message: String,
    pub screenshots: Vec<String>,
}

impl SessionError {
    /// The error has this reason and this message, and no screenshots yet.
    pub open spec fn says(&self, reason: FailureReason, message: Seq<char>) -> bool {
        &&& self.reason == reason
        &&& self.message@ == message
        &&& self.screenshots@.len() == 0
    }

    pub fn new(reason: FailureReason, message: String) -> (out: Self)
        ensures
            out.says(reason, message@),
            out.message == message,
    {
        SessionError { reason, message, screenshots: Vec::new() }
    }

    pub fn with_screenshots(self, screenshot_paths: Vec<String>) -> (out: Self)
        ensures
            out.reason == self.reason,
            out.message == self.message,
            out.screenshots == screenshot_paths,
    {
        SessionError { reason: self.reason, message: self.message, screenshots: screenshot_paths }
    }

    /// An error that is not the app's doing, described by `error`.
    pub fn internal(error: &str) -> (out: Self)
        ensures
            out.says(FailureReason::InternalError, error@),
    {
        SessionError::new(FailureReason::InternalError, owned(error))
    }
}

/// What a session that came to its end has to show.
#[derive(Debug, Clone)]
pub struct SessionSuccess {
    pub screenshot_paths: Vec<String>,
    pub launch_to_window_ms: u128,
}

// ---------------------------------------------------------------------------
// Names of screenshots

/// What a character becomes in a name of a file.
pub open spec fn slug_char(c: char) -> char {
    if text::is_ascii_alnum(c) {
        text::lower_char(c)
    } else {
        '-'
    }
}

/// Pieces without the empty ones.
pub open spec fn nonempty(pieces: Seq<Seq<char>>) -> Seq<Seq<char>>
    decreases pieces.len(),
{
    if pieces.len() == 0 {
        Seq::empty()
    } else if pieces.last().len() == 0 {
        nonempty(pieces.drop_last())
    } else {
        nonempty(pieces.drop_last()).push(pieces.last())
    }
}

/// The runs of letters and digits of a text, in lower case, with one dash between them.
pub open spec fn dashed(written: Seq<char>) -> Seq<char> {
    let marked = Seq::new(written.len(), |i: int| slug_char(written[i]));
    text::join_seq(nonempty(text::split_on(marked, '-')), "-"@)
}

/// A text as a part of a name of a file.
pub open spec fn slug(written: Seq<char>) -> Seq<char> {
    if dashed(written).len() == 0 {
        "text"@
    } else {
        dashed(written)
    }
}

/// A text as a part of a name of a file.
pub fn screenshot_slug(written: &str) -> (out: String)
    ensures
        out@ == slug(written@),
{
    let all = chars(written);
    let mut marked = String::new();
    let mut i: usize = 0;
    while i < all.len()
        invariant
            i <= all@.len(),
            all@ == written@,
            marked@ == Seq::new(i as nat, |k: int| slug_char(written@[k])),
        decreases all@.len() - i,
    {
        let c = all[i];
        if ascii_alnum(c) {
            marked.push(ascii_lower_char(c));
        } else {
            marked.push('-');
        }
        i = i + 1;
    }
    let pieces = split(marked.as_str(), '-');
    let ghost parts = text::views(pieces@);
    let mut kept: Vec<String> = Vec::new();
    let mut j: usize = 0;
    assert(parts.take(0) =~= Seq::empty());
    assert(text::views(kept@) =~= Seq::empty());
    while j < pieces.len()
        invariant
            j <= pieces@.len(),
            parts == text::views(pieces@),
            text::views(kept@) == nonempty(parts.take(j as int)),
        decreases pieces@.len() - j,
    {
        proof {
            assert(parts.take(j + 1).drop_last() =~= parts.take(j as int));
            assert(parts.take(j + 1).last() == pieces@[j as int]@);
        }
        if !pieces[j].as_str().is_empty() {
            let piece = owned(pieces[j].as_str());
            proof {
                text::lemma_views_push(kept@, piece);
            }
            kept.push(piece);
        }
        j = j + 1;
    }
    assert(parts.take(parts.len() as int) =~= parts);
    let joined = join(&kept, "-");
    if joined.as_str().is_empty() {
        owned("text")
    } else {
        joined
    }
}

/// The name of the screenshot after a click.
pub open spec fn click_name(index: nat, click_text: Seq<char>) -> Seq<char> {
    number::padded_seq(index, 3) + "-after-click-"@ + slug(click_text) + ".png"@
}

/// The name of the screenshot after a click.
pub fn click_screenshot_name(index: usize, click_text: &str) -> (out: String)
    ensures
        out@ == click_name(index as nat, click_text@),
{
    cat4(
        padded3(index as u128).as_str(),
        "-after-click-",
        screenshot_slug(click_text).as_str(),
        ".png",
    )
}

/// Whether a character may stand in a slug.
pub open spec fn slug_safe(c: char) -> bool {
    text::is_digit(c) || text::is_ascii_lower(c) || c == '-'
}

/// A slug is never empty and holds only digits, lower case letters and dashes, so that it is safe
/// in a name of a file whatever the text was.
pub proof fn slugs_are_safe_in_names(written: Seq<char>)
    ensures
        slug(written).len() > 0,
        forall|i: int| 0 <= i < slug(written).len() ==> slug_safe(#[trigger] slug(written)[i]),
{
    reveal_strlit("text");
    reveal_strlit("-");
    let marked = Seq::new(written.len(), |i: int| slug_char(written[i]));
    let pieces = text::split_on(marked, '-');
    assert forall|k: int, j: int|
        0 <= k < pieces.len() && 0 <= j < pieces[k].len() implies slug_safe(
        #[trigger] pieces[k][j],
    ) by {
        lemma_pieces_keep(marked, '-', k, j);
    }
    lemma_nonempty_keeps(pieces);
    lemma_join_safe(nonempty(pieces));
}

/// Each character of a piece stands in the text that was split.
proof fn lemma_pieces_keep(s: Seq<char>, separator: char, k: int, j: int)
    requires
        0 <= k < text::split_on(s, separator).len(),
        0 <= j < text::split_on(s, separator)[k].len(),
    ensures
        exists|i: int| 0 <= i < s.len() && s[i] == text::split_on(s, separator)[k][j],
    decreases s.len(),
{
    let pieces = text::split_on(s, separator);
    if s.len() > 0 {
        let before = text::split_on(s.drop_last(), separator);
        text::lemma_split_pieces(s.drop_last(), separator);
        if s.last() == separator {
            assert(pieces =~= before.push(Seq::empty()));
            lemma_pieces_keep(s.drop_last(), separator, k, j);
            let i = choose|i: int|
                0 <= i < s.drop_last().len() && s.drop_last()[i] == before[k][j];
            assert(s[i] == pieces[k][j]);
        } else if k == pieces.len() - 1 && j == pieces[k].len() - 1 {
            assert(s[s.len() - 1] == pieces[k][j]);
        } else {
            lemma_pieces_keep(s.drop_last(), separator, k, j);
            let i = choose|i: int|
                0 <= i < s.drop_last().len() && s.drop_last()[i] == before[k][j];
            assert(s[i] == pieces[k][j]);
        }
    }
}

proof fn lemma_nonempty_keeps(pieces: Seq<Seq<char>>)
    requires
        forall|k: int, j: int|
            0 <= k < pieces.len() && 0 <= j < pieces[k].len() ==> slug_safe(
                #[trigger] pieces[k][j],
            ),
    ensures
        forall|k: int, j: int|
            0 <= k < nonempty(pieces).len() && 0 <= j < nonempty(pieces)[k].len() ==> slug_safe(
                #[trigger] nonempty(pieces)[k][j],
            ),
    decreases pieces.len(),
{
    if pieces.len() > 0 {
        let shorter = pieces.drop_last();
        assert forall|k: int, j: int|
            0 <= k < shorter.len() && 0 <= j < shorter[k].len() implies slug_safe(
            #[trigger] shorter[k][j],
        ) by {
            assert(slug_safe(pieces[k][j]));
        }
        lemma_nonempty_keeps(shorter);
        assert forall|k: int, j: int|
            0 <= k < nonempty(pieces).len() && 0 <= j < nonempty(pieces)[k].len() implies slug_safe(
            #[trigger] nonempty(pieces)[k][j],
        ) by {
            if k < nonempty(shorter).len() {
                assert(nonempty(pieces)[k][j] == nonempty(shorter)[k][j]);
            } else {
                assert(nonempty(pieces)[k][j] == pieces[pieces.len() - 1][j]);
            }
        }
    }
}

proof fn lemma_join_safe(parts: Seq<Seq<char>>)
    requires
        forall|k: int, j: int|
            0 <= k < parts.len() && 0 <= j < parts[k].len() ==> slug_safe(#[trigger] parts[k][j]),
    ensures
        forall|i: int|
            0 <= i < text::join_seq(parts, "-"@).len() ==> slug_safe(
                #[trigger] text::join_seq(parts, "-"@)[i],
            ),
    decreases parts.len(),
{
    reveal_strlit("-");
    if parts.len() == 1 {
        assert forall|i: int| 0 <= i < text::join_seq(parts, "-"@).len() implies slug_safe(
            #[trigger] text::join_seq(parts, "-"@)[i],
        ) by {
            assert(slug_safe(parts[0][i]));
        }
    } else if parts.len() > 1 {
        let shorter = parts.drop_last();
        assert forall|k: int, j: int|
            0 <= k < shorter.len() && 0 <= j < shorter[k].len() implies slug_safe(
            #[trigger] shorter[k][j],
        ) by {
            assert(slug_safe(parts[k][j]));
        }
        lemma_join_safe(shorter);
        let front = text::join_seq(shorter, "-"@);
        let all = text::join_seq(parts, "-"@);
        assert forall|i: int| 0 <= i < all.len() implies slug_safe(#[trigger] all[i]) by {
            if i < front.len() {
                assert(all[i] == front[i]);
            } else if i > front.len() {
                assert(all[i] == parts[parts.len() - 1][i - front.len() - 1]);
            }
        }
    }
}

/// Whether dashes stand in a text only one by one, between other characters.
pub open spec fn dashes_separate(s: Seq<char>) -> bool {
    &&& s.len() > 0 ==> s[0] != '-' && s.last() != '-'
    &&& forall|i: int| 0 <= i < s.len() - 1 && #[trigger] s[i] == '-' ==> s[i + 1] != '-'
}

/// Whether pieces are what slugs are made of: not empty, and without dashes.
pub open spec fn slug_pieces(parts: Seq<Seq<char>>) -> bool {
    forall|k: int|
        0 <= k < parts.len() ==> (#[trigger] parts[k]).len() > 0 && !parts[k].contains('-')
}

pub proof fn lemma_nonempty_pieces(pieces: Seq<Seq<char>>)
    requires
        forall|k: int| 0 <= k < pieces.len() ==> !(#[trigger] pieces[k]).contains('-'),
    ensures
        slug_pieces(nonempty(pieces)),
    decreases pieces.len(),
{
    if pieces.len() > 0 {
        let shorter = pieces.drop_last();
        assert forall|k: int| 0 <= k < shorter.len() implies !(#[trigger] shorter[k]).contains(
            '-',
        ) by {
            assert(shorter[k] == pieces[k]);
        }
        lemma_nonempty_pieces(shorter);
        assert(!pieces[pieces.len() - 1].contains('-'));
    }
}

proof fn lemma_nonempty_stays(parts: Seq<Seq<char>>)
    requires
        slug_pieces(parts),
    ensures
        nonempty(parts) == parts,
    decreases parts.len(),
{
    if parts.len() > 0 {
        let shorter = parts.drop_last();
        assert forall|k: int| 0 <= k < shorter.len() implies (#[trigger] shorter[k]).len() > 0
            && !shorter[k].contains('-') by {
            assert(shorter[k] == parts[k]);
        }
        lemma_nonempty_stays(shorter);
        assert(parts[parts.len() - 1].len() > 0);
        assert(shorter.push(parts.last()) =~= parts);
    } else {
        assert(parts =~= Seq::empty());
    }
}

pub proof fn lemma_join_separates(parts: Seq<Seq<char>>)
    requires
        slug_pieces(parts),
    ensures
        dashes_separate(text::join_seq(parts, "-"@)),
        parts.len() > 0 ==> text::join_seq(parts, "-"@).len() > 0,
    decreases parts.len(),
{
    reveal_strlit("-");
    if parts.len() > 0 {
        let last = parts[parts.len() - 1];
        assert(last.len() > 0 && !last.contains('-'));
        assert(forall|i: int| 0 <= i < last.len() ==> last[i] != '-');
        if parts.len() > 1 {
            let shorter = parts.drop_last();
            assert forall|k: int| 0 <= k < shorter.len() implies (#[trigger] shorter[k]).len() > 0
                && !shorter[k].contains('-') by {
                assert(shorter[k] == parts[k]);
            }
            lemma_join_separates(shorter);
            let front = text::join_seq(shorter, "-"@);
            let all = text::join_seq(parts, "-"@);
            assert(all == front + "-"@ + last);
            assert forall|i: int| 0 <= i < all.len() - 1 && #[trigger] all[i] == '-' implies all[i
                + 1] != '-' by {
                if i + 1 < front.len() {
                    assert(front[i] == '-');
                } else if i == front.len() - 1 {
                    assert(front.last() == all[i]);
                } else {
                    assert(all[i + 1] == last[i - front.len()]);
                }
            }
        }
    }
}

/// The pieces that a slug is made of.
proof fn lemma_slug_parts(written: Seq<char>) -> (parts: Seq<Seq<char>>)
    ensures
        parts.len() > 0,
        slug_pieces(parts),
        slug(written) == text::join_seq(parts, "-"@),
{
    reveal_strlit("text");
    let marked = Seq::new(written.len(), |i: int| slug_char(written[i]));
    let pieces = text::split_on(marked, '-');
    text::lemma_split_pieces(marked, '-');
    lemma_nonempty_pieces(pieces);
    let kept = nonempty(pieces);
    lemma_join_separates(kept);
    if dashed(written).len() == 0 {
        let only = seq!["text"@];
        assert(!"text"@.contains('-'));
        assert(text::join_seq(only, "-"@) == "text"@);
        only
    } else {
        kept
    }
}

/// A slug has no dash at either end and no doubled dash, and it is its own slug.
pub proof fn slugs_are_tidy(written: Seq<char>)
    ensures
        dashes_separate(slug(written)),
        slug(slug(written)) == slug(written),
{
    reveal_strlit("-");
    let parts = lemma_slug_parts(written);
    let s = slug(written);
    lemma_join_separates(parts);
    slugs_are_safe_in_names(written);
    let marked = Seq::new(s.len(), |i: int| slug_char(s[i]));
    assert forall|i: int| 0 <= i < s.len() implies #[trigger] slug_char(s[i]) == s[i] by {
        assert(slug_safe(s[i]));
    }
    assert(marked =~= s);
    assert("-"@ =~= seq!['-']);
    assert forall|k: int| 0 <= k < parts.len() implies !(#[trigger] parts[k]).contains('-') by {}
    text::lemma_join_split(parts, '-');
    lemma_nonempty_stays(parts);
}

/// Screenshots after different clicks have different names, even where the clicks have the same
/// text.
pub proof fn click_screenshots_have_distinct_names(
    first: nat,
    first_text: Seq<char>,
    second: nat,
    second_text: Seq<char>,
)
    requires
        click_name(first, first_text) == click_name(second, second_text),
    ensures
        first == second,
{
    reveal_strlit("-after-click-");
    let a = number::padded_seq(first, 3);
    let b = number::padded_seq(second, 3);
    let name = click_name(first, first_text);
    let same = click_name(second, second_text);
    number::lemma_padded_value(first, 3);
    number::lemma_padded_value(second, 3);
    assert(name[a.len() as int] == '-');
    assert(same[b.len() as int] == '-');
    if a.len() < b.len() {
        assert(same[a.len() as int] == b[a.len() as int]);
        assert(text::is_digit(b[a.len() as int]));
    }
    if b.len() < a.len() {
        assert(name[b.len() as int] == a[b.len() as int]);
        assert(text::is_digit(a[b.len() as int]));
    }
    assert(a =~= name.take(a.len() as int));
    assert(b =~= same.take(b.len() as int));
    number::padded_form_is_unique(first, second, 3);
}

// ---------------------------------------------------------------------------
// Processes and time

/// What is known of a process.
#[derive(Debug)]
pub enum ProcessState {
    Running,
    /// It ended; this is how the system tells of it.
    Exited(String),
    /// It could not be looked at.
    Unknown(String),
}

/// What is wrong with the processes of a session: the display comes before the app.
pub open spec fn process_failure(weston: ProcessState, app: Option<ProcessState>) -> Option<
    (FailureReason, Seq<char>),
> {
    match weston {
        ProcessState::Unknown(error) => Some((FailureReason::InternalError, error@)),
        ProcessState::Exited(status) => Some(
            (
                FailureReason::DisplayExited,
                "Weston exited during verification with "@ + status@,
            ),
        ),
        ProcessState::Running => match app {
            Some(ProcessState::Unknown(error)) => Some((FailureReason::InternalError, error@)),
            Some(ProcessState::Exited(status)) => Some(
                (FailureReason::EarlyExit, "app exited during verification with "@ + status@),
            ),
            _ => None,
        },
    }
}

/// Whether the processes of a session are still there.
pub fn check_processes(weston: &ProcessState, app: &Option<ProcessState>) -> (out: Result<
    (),
    SessionError,
>)
    ensures
        match process_failure(*weston, *app) {
            Some((reason, message)) => out matches Err(error) && error.says(reason, message),
            None => out is Ok,
        },
{
    match weston {
        ProcessState::Unknown(error) => return Err(SessionError::internal(error.as_str())),
        ProcessState::Exited(status) => {
            return Err(
                SessionError::new(
                    FailureReason::DisplayExited,
                    cat2("Weston exited during verification with ", status.as_str()),
                ),
            );
        },
        ProcessState::Running => {},
    }
    match app {
        Some(ProcessState::Unknown(error)) => Err(SessionError::internal(error.as_str())),
        Some(ProcessState::Exited(status)) => Err(
            SessionError::new(
                FailureReason::EarlyExit,
                cat2("app exited during verification with ", status.as_str()),
            ),
        ),
        _ => Ok(()),
    }
}

/// The part of `requested` that the whole run has left.
pub fn bounded_timeout(
    cancelled: bool,
    now: Instant,
    overall_deadline: Instant,
    requested: Duration,
) -> (out: Result<Duration, SessionError>)
    ensures
        match process::time_left(cancelled, now@, overall_deadline@) {
            Ok(left) => out matches Ok(timeout) && timeout@ == time::smaller(requested@, left),
            Err(error) => out matches Err(failure) && failure.says(
                FailureReason::InternalError,
                process::budget_message(error),
            ),
        },
{
    match remaining(cancelled, now, overall_deadline) {
        Ok(left) => Ok(requested.shorter(left)),
        Err(error) => Err(SessionError::internal(error.message())),
    }
}

// ---------------------------------------------------------------------------
// The course of a session

/// How far a session has come.
pub enum Stage {
    Baseline,
    Launch,
    Frame,
    First,
    FirstContent,
    FirstText,
    Locate { index: nat },
    Click { index: nat, target: (i32, i32) },
    Settle { index: nat },
    Change { index: nat },
    ChangeText { index: nat },
    Budget,
    Finished,
    Failed { reason: FailureReason, message: Seq<char> },
}

/// What a session does next.
#[derive(Debug)]
pub enum SessionStage {
    /// Connect to the display, and capture it before the app is there.
    Baseline,
    /// Start the app.
    Launch,
    /// Wait until the app shows something that stays.
    Frame,
    /// Capture the first screenshot.
    First,
    /// Look whether it shows something.
    FirstContent,
    /// Look for errors in its text.
    FirstText,
    /// Find the text of a click.
    Locate { index: usize },
    /// Click there.
    Click { index: usize, target: (i32, i32) },
    /// Let the app react.
    Settle { index: usize },
    /// Capture a screenshot that differs from the last one.
    Change { index: usize },
    /// Look for errors in its text.
    ChangeText { index: usize },
    /// Look whether there is time left.
    Budget,
    Finished,
    Failed { error: SessionError },
}

impl View for SessionStage {
    type V = Stage;

    open spec fn view(&self) -> Stage {
        match *self {
            SessionStage::Baseline => Stage::Baseline,
            SessionStage::Launch => Stage::Launch,
            SessionStage::Frame => Stage::Frame,
            SessionStage::First => Stage::First,
            SessionStage::FirstContent => Stage::FirstContent,
            SessionStage::FirstText => Stage::FirstText,
            SessionStage::Locate { index } => Stage::Locate { index: index as nat },
            SessionStage::Click { index, target } => Stage::Click { index: index as nat, target },
            SessionStage::Settle { index } => Stage::Settle { index: index as nat },
            SessionStage::Change { index } => Stage::Change { index: index as nat },
            SessionStage::ChangeText { index } => Stage::ChangeText { index: index as nat },
            SessionStage::Budget => Stage::Budget,
            SessionStage::Finished => Stage::Finished,
            SessionStage::Failed { error } => Stage::Failed {
                reason: error.reason,
                message: error.message@,
            },
        }
    }
}

/// What came of the last thing that a session did.
#[derive(Debug)]
pub enum Report {
    /// It is done.
    Done,
    /// The app shows something, this many milliseconds after the session began.
    Visible { elapsed_ms: u128 },
    /// The screenshot shows something.
    Content,
    /// The screenshot, which is displayed as this path, shows nothing.
    NoContent { path: String },
    /// The marker of an error in the text, where there is one.
    Marker { marker: Option<String> },
    /// The place of the text, where there is one.
    Target { target: Option<(i32, i32)> },
    /// It failed.
    Failed { error: SessionError },
}

/// Whether a report answers what a session did.
pub open spec fn answers(stage: Stage, report: Report) -> bool {
    report is Failed || match stage {
        Stage::Frame => report is Visible,
        Stage::FirstContent => report is Content || report is NoContent,
        Stage::FirstText => report is Marker,
        Stage::Locate { .. } => report is Target,
        Stage::ChangeText { .. } => report is Marker,
        _ => report is Done,
    }
}

/// A session: what it is to show, how far it has come, and what it has to show so far.
pub struct Course {
    pub name: Seq<char>,
    pub clicks: Seq<Seq<char>>,
    pub stage: Stage,
    pub screenshots: Seq<Seq<char>>,
    pub launch_to_window: nat,
}

/// The path of a screenshot under the directory of a run.
pub open spec fn relative_path(name: Seq<char>) -> Seq<char> {
    "screenshots/"@ + name
}

/// The path of screenshot number `k` of a session.
pub open spec fn session_path(name: Seq<char>, clicks: Seq<Seq<char>>, k: int) -> Seq<char> {
    if k == 0 {
        relative_path(name)
    } else {
        relative_path(click_name(k as nat, clicks[k - 1]))
    }
}

/// The first `count` screenshots of a session.
pub open spec fn session_paths(name: Seq<char>, clicks: Seq<Seq<char>>, count: nat) -> Seq<
    Seq<char>,
> {
    Seq::new(count, |k: int| session_path(name, clicks, k))
}

/// How many screenshots a session has at a stage that is not its failure.
pub open spec fn screenshot_count(clicks: nat, stage: Stage) -> nat {
    match stage {
        Stage::Baseline => 0,
        Stage::Launch => 0,
        Stage::Frame => 0,
        Stage::First => 0,
        Stage::FirstContent => 1,
        Stage::FirstText => 1,
        Stage::Locate { index } => index + 1,
        Stage::Click { index, .. } => index + 1,
        Stage::Settle { index } => index + 1,
        Stage::Change { index } => index + 1,
        Stage::ChangeText { index } => index + 2,
        Stage::Budget => clicks + 1,
        Stage::Finished => clicks + 1,
        Stage::Failed { .. } => 0,
    }
}

/// The click that a stage is about.
pub open spec fn stage_index(stage: Stage) -> Option<nat> {
    match stage {
        Stage::Locate { index } => Some(index),
        Stage::Click { index, .. } => Some(index),
        Stage::Settle { index } => Some(index),
        Stage::Change { index } => Some(index),
        Stage::ChangeText { index } => Some(index),
        _ => None,
    }
}

impl Course {
    /// A session has exactly the screenshots that it has come to so far, and a failed one has
    /// those that came before the failure.
    pub open spec fn wf(&self) -> bool {
        &&& stage_index(self.stage) matches Some(index) ==> index < self.clicks.len()
        &&& self.screenshots == session_paths(self.name, self.clicks, self.screenshots.len())
        &&& self.screenshots.len() <= self.clicks.len() + 1
        &&& !(self.stage is Failed) ==> self.screenshots.len() == screenshot_count(
            self.clicks.len(),
            self.stage,
        )
    }

    pub open spec fn at(self, stage: Stage) -> Course {
        Course { stage, ..self }
    }

    pub open spec fn failing(self, reason: FailureReason, message: Seq<char>) -> Course {
        self.at(Stage::Failed { reason, message })
    }

    /// What follows a click's screenshot: the next click, or the end.
    pub open spec fn before_click(self, index: nat) -> Course {
        self.at(
            if index < self.clicks.len() {
                Stage::Locate { index }
            } else {
                Stage::Budget
            },
        )
    }

    pub open spec fn with_screenshot(self, name: Seq<char>) -> Course {
        Course { screenshots: self.screenshots.push(relative_path(name)), ..self }
    }
}

/// What an error marker in a text leads to.
pub open spec fn marker_step(course: Course, marker: Option<String>, index: nat) -> Course {
    match marker {
        Some(marker) => course.failing(
            FailureReason::AppErrorWindow,
            "screenshot text matched app error marker '"@ + marker@ + "'"@,
        ),
        None => course.before_click(index),
    }
}

/// How a session goes on after a report.
pub open spec fn session_step(course: Course, report: Report) -> Course {
    match (course.stage, report) {
        (Stage::Failed { .. }, _) => course,
        (Stage::Finished, _) => course,
        (_, Report::Failed { error }) => course.failing(error.reason, error.message@),
        (Stage::Baseline, _) => course.at(Stage::Launch),
        (Stage::Launch, _) => course.at(Stage::Frame),
        (Stage::Frame, Report::Visible { elapsed_ms }) => Course {
            stage: Stage::First,
            launch_to_window: elapsed_ms as nat,
            ..course
        },
        (Stage::First, _) => course.with_screenshot(course.name).at(Stage::FirstContent),
        (Stage::FirstContent, Report::NoContent { path }) => course.failing(
            FailureReason::ScreenshotFailed,
            "screenshot '"@ + path@ + "' contained no visible app content"@,
        ),
        (Stage::FirstContent, _) => course.at(Stage::FirstText),
        (Stage::FirstText, Report::Marker { marker }) => marker_step(course, marker, 0),
        (Stage::Locate { index }, Report::Target { target }) => match target {
            Some(target) => course.at(Stage::Click { index, target }),
            None => course.failing(
                FailureReason::ScreenshotFailed,
                "could not find text '"@ + course.clicks[index as int]
                    + "' in screenshot OCR output"@,
            ),
        },
        (Stage::Click { index, .. }, _) => course.at(Stage::Settle { index }),
        (Stage::Settle { index }, _) => course.at(Stage::Change { index }),
        (Stage::Change { index }, _) => course.with_screenshot(
            click_name(index + 1, course.clicks[index as int]),
        ).at(Stage::ChangeText { index }),
        (Stage::ChangeText { index }, Report::Marker { marker }) => marker_step(
            course,
            marker,
            index + 1,
        ),
        (Stage::Budget, _) => course.at(Stage::Finished),
        _ => course,
    }
}

/// A session on a display that is ready.
#[derive(Debug)]
pub struct SessionRun {
    pub screenshot_name: String,
    pub clicks: Vec<String>,
    pub stage: SessionStage,
    pub screenshots: Vec<String>,
    pub launch_to_window_ms: u128,
}

impl View for SessionRun {
    type V = Course;

    open spec fn view(&self) -> Course {
        Course {
            name: self.screenshot_name@,
            clicks: text::views(self.clicks@),
            stage: self.stage@,
            screenshots: text::views(self.screenshots@),
            launch_to_window: self.launch_to_window_ms as nat,
        }
    }
}

/// The path of a screenshot under the directory of a run.
pub fn relative_screenshot_path(screenshot_name: &str) -> (out: String)
    ensures
        out@ == relative_path(screenshot_name@),
{
    cat2("screenshots/", screenshot_name)
}

impl SessionRun {
    /// Begins a session that shows `screenshot_name` first, and then a screenshot after each
    /// click.
    pub fn new(screenshot_name: &str, screenshots_after_click: Vec<String>) -> (out: Self)
        ensures
            out@.wf(),
            out@.name == screenshot_name@,
            out@.clicks == text::views(screenshots_after_click@),
            out@.stage == Stage::Baseline,
            out@.screenshots.len() == 0,
            out@.launch_to_window == 0,
    {
        let out = SessionRun {
            screenshot_name: owned(screenshot_name),
            clicks: screenshots_after_click,
            stage: SessionStage::Baseline,
            screenshots: Vec::new(),
            launch_to_window_ms: 0,
        };
        assert(out@.screenshots =~= session_paths(out@.name, out@.clicks, 0));
        out
    }

    /// The name of the next screenshot.
    pub fn next_name(&self) -> (out: Option<String>)
        requires
            self@.wf(),
        ensures
            match self@.stage {
                Stage::First => out matches Some(name) && name@ == self@.name,
                Stage::Change { index } => out matches Some(name) && name@ == click_name(
                    index + 1,
                    self@.clicks[index as int],
                ),
                _ => out is None,
            },
    {
        match &self.stage {
            SessionStage::First => Some(owned(self.screenshot_name.as_str())),
            SessionStage::Change { index } => {
                let at: usize = *index;
                assert(self.clicks@[at as int]@ == self@.clicks[at as int]);
                let total: usize = self.clicks.len();
                assert(at < total);
                Some(click_screenshot_name(at + 1, self.clicks[at].as_str()))
            },
            _ => None,
        }
    }

    fn push_screenshot(&mut self, name: &str)
        ensures
            final(self)@ == old(self)@.with_screenshot(name@),
    {
        let path = relative_screenshot_path(name);
        proof {
            text::lemma_views_push(self.screenshots@, path);
        }
        self.screenshots.push(path);
    }

    fn before_click(&self, index: usize) -> (out: SessionStage)
        ensures
            out@ == self@.before_click(index as nat).stage,
    {
        if index < self.clicks.len() {
            SessionStage::Locate { index }
        } else {
            SessionStage::Budget
        }
    }

    fn after_text(&self, marker: Option<String>, index: usize) -> (out: SessionStage)
        ensures
            out@ == marker_step(self@, marker, index as nat).stage,
    {
        match marker {
            Some(marker) => SessionStage::Failed { error: app_error(marker.as_str()) },
            None => self.before_click(index),
        }
    }

    /// Goes on after a report.
    pub fn advance(self, report: Report) -> (out: Self)
        requires
            self@.wf(),
            answers(self@.stage, report),
        ensures
            out@ == session_step(self@, report),
            out@.wf(),
    {
        let ghost before = self@;
        let total: usize = self.clicks.len();
        let SessionRun { screenshot_name, clicks, stage, screenshots, launch_to_window_ms } = self;
        let mut run = SessionRun {
            screenshot_name,
            clicks,
            stage: SessionStage::Finished,
            screenshots,
            launch_to_window_ms,
        };
        let next = match (stage, report) {
            (SessionStage::Failed { error }, _) => SessionStage::Failed { error },
            (SessionStage::Finished, _) => SessionStage::Finished,
            (_, Report::Failed { error }) => SessionStage::Failed { error },
            (SessionStage::Baseline, _) => SessionStage::Launch,
            (SessionStage::Launch, _) => SessionStage::Frame,
            (SessionStage::Frame, Report::Visible { elapsed_ms }) => {
                run.launch_to_window_ms = elapsed_ms;
                SessionStage::First
            },
            (SessionStage::First, _) => {
                let name = owned(run.screenshot_name.as_str());
                run.push_screenshot(name.as_str());
                SessionStage::FirstContent
            },
            (SessionStage::FirstContent, Report::NoContent { path }) => SessionStage::Failed {
                error: SessionError::new(
                    FailureReason::ScreenshotFailed,
                    cat3("screenshot '", path.as_str(), "' contained no visible app content"),
                ),
            },
            (SessionStage::FirstContent, _) => SessionStage::FirstText,
            (SessionStage::FirstText, Report::Marker { marker }) => run.after_text(marker, 0),
            (SessionStage::Locate { index }, Report::Target { target }) => match target {
                Some(target) => SessionStage::Click { index, target },
                None => {
                    assert(before.clicks[index as int] == run.clicks@[index as int]@);
                    SessionStage::Failed {
                        error: SessionError::new(
                            FailureReason::ScreenshotFailed,
                            cat3(
                                "could not find text '",
                                run.clicks[index].as_str(),
                                "' in screenshot OCR output",
                            ),
                        ),
                    }
                },
            },
            (SessionStage::Click { index, .. }, _) => SessionStage::Settle { index },
            (SessionStage::Settle { index }, _) => SessionStage::Change { index },
            (SessionStage::Change { index }, _) => {
                assert(before.clicks[index as int] == run.clicks@[index as int]@);
                let name = click_screenshot_name(index + 1, run.clicks[index].as_str());
                run.push_screenshot(name.as_str());
                SessionStage::ChangeText { index }
            },
            (SessionStage::ChangeText { index }, Report::Marker { marker }) => run.after_text(
                marker,
                index + 1,
            ),
            (SessionStage::Budget, _) => SessionStage::Finished,
            (stage, _) => stage,
        };
        run.stage = next;
        proof {
            let after = run@;
            assert(after.screenshots =~= session_paths(
                after.name,
                after.clicks,
                after.screenshots.len(),
            ));
        }
        run
    }

    /// The end of a session: a process that ended counts before anything else that went wrong,
    /// and a failure keeps the screenshots so far.
    pub fn conclude(self, processes: Result<(), SessionError>) -> (out: Result<
        SessionSuccess,
        SessionError,
    >)
        requires
            self@.stage is Finished || self@.stage is Failed,
        ensures
            processes matches Err(exit) ==> (out matches Err(error) && error.reason == exit.reason
                && error.message == exit.message && error.screenshots == self.screenshots),
            processes is Ok ==> match self.stage {
                SessionStage::Failed { error: failure } => out matches Err(error) && error.reason
                    == failure.reason && error.message == failure.message && error.screenshots
                    == self.screenshots,
                _ => out matches Ok(success) && success.screenshot_paths == self.screenshots
                    && success.launch_to_window_ms == self.launch_to_window_ms,
            },
    {
        match processes {
            Err(exit) => Err(exit.with_screenshots(self.screenshots)),
            Ok(()) => match self.stage {
                SessionStage::Failed { error } => Err(error.with_screenshots(self.screenshots)),
                _ => Ok(
                    SessionSuccess {
                        screenshot_paths: self.screenshots,
                        launch_to_window_ms: self.launch_to_window_ms,
                    },
                ),
            },
        }
    }
}

/// The end of a session once the display was looked at for the last time. A display that ended
/// fails the session, with the screenshots that it had; a failed session also tells of the last
/// screen that was captured.
pub fn close_session(
    result: Result<SessionSuccess, SessionError>,
    compositor: Result<(), SessionError>,
    has_candidate: bool,
) -> (out: Result<SessionSuccess, SessionError>)
    ensures
        result is Ok && compositor is Ok ==> out == result,
        !(result is Ok && compositor is Ok) ==> (out matches Err(error) && {
            let kept = match result {
                Ok(success) => success.screenshot_paths,
                Err(previous) => previous.screenshots,
            };
            let cause = match compositor {
                Err(exit) => exit,
                Ok(_) => result->Err_0,
            };
            &&& error.reason == cause.reason
            &&& error.message == cause.message
            &&& text::views(error.screenshots@) == if has_candidate {
                text::views(kept@).push("logs/last-candidate.png"@)
            } else {
                text::views(kept@)
            }
        }),
{
    let failed = match compositor {
        Ok(()) => match result {
            Ok(success) => return Ok(success),
            Err(error) => error,
        },
        Err(exit) => exit.with_screenshots(
            match result {
                Ok(success) => success.screenshot_paths,
                Err(previous) => previous.screenshots,
            },
        ),
    };
    let mut screenshots = failed.screenshots;
    if has_candidate {
        let candidate = owned("logs/last-candidate.png");
        proof {
            text::lemma_views_push(screenshots@, candidate);
        }
        screenshots.push(candidate);
    }
    Err(SessionError { reason: failed.reason, message: failed.message, screenshots })
}

/// A session that came to its end shows the first screenshot, and then one after each click, in
/// order.
pub proof fn finished_sessions_show_every_click(course: Course)
    requires
        course.wf(),
        course.stage is Finished,
    ensures
        course.screenshots == session_paths(course.name, course.clicks, course.clicks.len() + 1),
{
}

/// A session finishes only while it has time left.
pub proof fn sessions_finish_in_time(course: Course, report: Report)
    requires
        !(course.stage is Finished),
        session_step(course, report).stage is Finished,
    ensures
        course.stage is Budget,
        !(report is Failed),
{
}

/// Whatever is reported, a session keeps the screenshots that it has.
pub proof fn sessions_keep_their_screenshots(course: Course, report: Report)
    ensures
        text::begins(session_step(course, report).screenshots, course.screenshots),
{
    let after = session_step(course, report).screenshots;
    assert(after.take(course.screenshots.len() as int) =~= course.screenshots);
}

/// A failure ends a session, with the reason and the message that were reported.
pub proof fn failures_end_sessions(course: Course, error: SessionError, report: Report)
    requires
        !(course.stage is Finished || course.stage is Failed),
    ensures
        session_step(course, Report::Failed { error }).stage == (Stage::Failed {
            reason: error.reason,
            message: error.message@,
        }),
        session_step(session_step(course, Report::Failed { error }), report) == session_step(
            course,
            Report::Failed { error },
        ),
{
}

} // verus!
