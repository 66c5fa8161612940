//! The course of a recipe: which window is captured, what is done to it, and what it shows.
use crate::capture::FrameObservation;
use crate::number::{decimal, padded3};
use crate::process::BudgetError;
use crate::result::FailureReason;
use crate::screenshot::desktop::{Input, Window};
use crate::screenshot::images::ImageInfo;
use crate::screenshot::manifest::{Capture, Manifest};
use crate::screenshot::recipe::{Action, Recipe, Step};
use crate::screenshot::CaptureError;
use crate::session::relative_screenshot_path;
use crate::text::{cat2, cat3, cat4, cat5, owned, same};
use crate::time::{Duration, Instant};
use crate::{number, ocr, process, session, text};
use crate::screenshot::{helper, images, manifest, recipe};
use vstd::prelude::*;

verus! {

// ---------------------------------------------------------------------------
// Windows

/// The windows of an app among all windows.
pub open spec fn own_windows(windows: Seq<Window>, app_id: Seq<char>) -> Seq<Window>
    decreases windows.len(),
{
    if windows.len() == 0 {
        Seq::empty()
    } else if windows.last().app_id@ == app_id {
        own_windows(windows.drop_last(), app_id).push(windows.last())
    } else {
        own_windows(windows.drop_last(), app_id)
    }
}

/// The windows of an app among all windows.
pub fn windows_of(windows: Vec<Window>, app_id: &str) -> (out: Vec<Window>)
    ensures
        out@ == own_windows(windows@, app_id@),
{
    let mut rest = windows;
    let mut reversed: Vec<Window> = Vec::new();
    let ghost all = rest@;
    assert(own_windows(all, app_id@) =~= own_windows(all, app_id@) + reversed@.reverse());
    while rest.len() > 0
        invariant
            own_windows(all, app_id@) == own_windows(rest@, app_id@) + reversed@.reverse(),
        decreases rest@.len(),
    {
        let ghost before = rest@;
        let ghost kept = reversed@;
        match rest.pop() {
            Some(window) => {
                let own = same(window.app_id.as_str(), app_id);
                if own {
                    reversed.push(window);
                    assert(reversed@.reverse() =~= seq![window] + kept.reverse());
                    assert(own_windows(rest@, app_id@).push(window) + kept.reverse()
                        =~= own_windows(rest@, app_id@) + reversed@.reverse());
                }
                assert(rest@ =~= before.drop_last());
            },
            None => {},
        }
    }
    let mut out: Vec<Window> = Vec::new();
    let ghost kept = reversed@;
    assert(own_windows(rest@, app_id@) + kept.reverse() =~= kept.reverse());
    while reversed.len() > 0
        invariant
            reversed@.len() <= kept.len(),
            reversed@ == kept.take(reversed@.len() as int),
            out@ == kept.reverse().take(kept.len() - reversed@.len()),
        decreases reversed@.len(),
    {
        let ghost before = reversed@;
        match reversed.pop() {
            Some(window) => {
                out.push(window);
                assert(reversed@ =~= kept.take(reversed@.len() as int));
                assert(out@ =~= kept.reverse().take(kept.len() - reversed@.len()));
            },
            None => {},
        }
    }
    assert(kept.reverse().take(kept.len() as int) =~= kept.reverse());
    out
}

/// Whether a window is meant: by its title, or, without one, any that belongs to no other window.
pub open spec fn is_meant(window: Window, title: Option<Seq<char>>) -> bool {
    match title {
        Some(title) => window.title@ == title,
        None => !window.transient,
    }
}

/// The places of the windows that are meant.
pub open spec fn meant(windows: Seq<Window>, title: Option<Seq<char>>) -> Seq<int>
    decreases windows.len(),
{
    if windows.len() == 0 {
        Seq::empty()
    } else if is_meant(windows.last(), title) {
        meant(windows.drop_last(), title).push(windows.len() - 1)
    } else {
        meant(windows.drop_last(), title)
    }
}

/// What came of the search for a window.
#[derive(Debug, Clone, Copy, PartialEq, Eq, Structural)]
pub enum Choice {
    /// This one is meant.
    Found(u64),
    /// None is meant, so far.
    Missing,
    /// This many are meant.
    Ambiguous(usize),
}

/// What a search for a window comes to.
pub open spec fn chosen(windows: Seq<Window>, title: Option<Seq<char>>) -> Choice {
    let places = meant(windows, title);
    if places.len() == 0 {
        Choice::Missing
    } else if places.len() == 1 {
        Choice::Found(windows[places[0]].id)
    } else {
        Choice::Ambiguous(places.len() as usize)
    }
}

/// What a search for a window comes to. The title is that of the window, where one is given.
pub fn select(windows: &Vec<Window>, title: &Option<String>) -> (out: Choice)
    ensures
        out == chosen(windows@, text::option_view(*title)),
{
    let ghost wanted = text::option_view(*title);
    let mut count: usize = 0;
    let mut first: u64 = 0;
    let mut i: usize = 0;
    assert(windows@.take(0) =~= Seq::empty());
    while i < windows.len()
        invariant
            i <= windows@.len(),
            count <= i,
            wanted == text::option_view(*title),
            count == meant(windows@.take(i as int), wanted).len(),
            forall|k: int|
                0 <= k < count ==> 0 <= #[trigger] meant(windows@.take(i as int), wanted)[k] < i,
            count > 0 ==> first == windows@[meant(windows@.take(i as int), wanted)[0]].id,
        decreases windows@.len() - i,
    {
        let window = &windows[i];
        let ghost before = meant(windows@.take(i as int), wanted);
        proof {
            assert(windows@.take(i + 1).drop_last() =~= windows@.take(i as int));
            assert(windows@.take(i + 1).last() == *window);
        }
        let yes = match title {
            Some(title) => same(window.title.as_str(), title.as_str()),
            None => !window.transient,
        };
        if yes {
            if count == 0 {
                first = window.id;
            }
            count = count + 1;
        }
        proof {
            let after = meant(windows@.take(i + 1), wanted);
            assert forall|k: int| 0 <= k < after.len() implies 0 <= #[trigger] after[k] < i + 1 by {
                if k < before.len() {
                    assert(after[k] == before[k]);
                }
            }
            if before.len() > 0 {
                assert(after[0] == before[0]);
            }
        }
        i = i + 1;
    }
    assert(windows@.take(windows@.len() as int) =~= windows@);
    if count == 0 {
        Choice::Missing
    } else if count == 1 {
        Choice::Found(first)
    } else {
        Choice::Ambiguous(count)
    }
}

/// What is told of a search that comes to several windows.
pub open spec fn ambiguity(count: nat) -> Seq<char> {
    "ambiguous window selection: "@ + number::decimal_seq(count)
        + " matching windows; specify a unique title"@
}

fn ambiguous(count: usize) -> (out: CaptureError)
    ensures
        out.says(None, ambiguity(count as nat)),
{
    CaptureError::plain(
        cat3(
            "ambiguous window selection: ",
            decimal(count as u128).as_str(),
            " matching windows; specify a unique title",
        ),
    )
}

/// How an optional title is shown to a programmer.
pub uninterp spec fn debug_text(title: Option<Seq<char>>) -> Seq<char>;

/// The `Debug` form of an optional string in std: it depends on the string alone.
#[verifier::external_body]
fn debug_title(title: &Option<String>) -> (out: String)
    ensures
        out@ == debug_text(text::option_view(*title)),
{
    format!("{:?}", title)
}

/// What is told of a search that found no window in time.
pub open spec fn search_timeout(title: Option<Seq<char>>, error: Seq<char>) -> Seq<char> {
    "waiting for app window "@ + debug_text(title) + ": "@ + error
}

fn window_timeout(title: &Option<String>, error: &str) -> (out: CaptureError)
    ensures
        out.says(
            Some(FailureReason::WindowTimeout),
            search_timeout(text::option_view(*title), error@),
        ),
{
    CaptureError::failure(
        FailureReason::WindowTimeout,
        cat4("waiting for app window ", debug_title(title).as_str(), ": ", error),
    )
}

/// A size as it is told.
pub open spec fn size_text(width: nat, height: nat) -> Seq<char> {
    number::decimal_seq(width) + "x"@ + number::decimal_seq(height)
}

fn size(width: u32, height: u32) -> (out: String)
    ensures
        out@ == size_text(width as nat, height as nat),
{
    cat3(decimal(width as u128).as_str(), "x", decimal(height as u128).as_str())
}

/// What is wrong with a picture of a window, if anything is: its scale, its size, or its buffer.
pub open spec fn snapshot_fault(window: Window, image: ImageInfo) -> Option<Seq<char>> {
    if !window.scale.one {
        Some("unsupported window scale "@ + window.scale.written@ + "; expected 1"@)
    } else if !(window.frame.width <= 1000 && window.frame.height <= 700) {
        Some(
            "window size "@ + size_text(window.frame.width as nat, window.frame.height as nat)
                + " exceeds 1000x700"@,
        )
    } else if !(image.width == window.buffer.width && image.height == window.buffer.height) {
        Some("native image and window buffer dimensions differ"@)
    } else {
        None
    }
}

/// Checks the picture of a window.
pub fn check_snapshot(window: &Window, image: &ImageInfo) -> (out: Result<(), CaptureError>)
    ensures
        match snapshot_fault(*window, *image) {
            Some(fault) => out matches Err(error) && error.says(None, fault),
            None => out is Ok,
        },
{
    if !window.scale.one {
        return Err(
            CaptureError::plain(
                cat3("unsupported window scale ", window.scale.written.as_str(), "; expected 1"),
            ),
        );
    }
    if !(window.frame.width <= 1000 && window.frame.height <= 700) {
        return Err(
            CaptureError::plain(
                cat3(
                    "window size ",
                    size(window.frame.width, window.frame.height).as_str(),
                    " exceeds 1000x700",
                ),
            ),
        );
    }
    if !(image.width == window.buffer.width && image.height == window.buffer.height) {
        return Err(
            CaptureError::plain(owned("native image and window buffer dimensions differ")),
        );
    }
    Ok(())
}

// ---------------------------------------------------------------------------
// Clicks

/// What is wrong with the places of a label to click, if anything is.
pub open spec fn click_fault(places: Seq<(int, int)>, window: Window, label: Seq<char>) -> Option<
    Seq<char>,
> {
    if places.len() != 1 {
        Some(
            "click text '"@ + label + "' matched "@ + number::decimal_seq(places.len())
                + " locations; expected exactly one"@,
        )
    } else if !(0 <= places[0].0 < 2 * window.buffer.width && 0 <= places[0].1 < 2
        * window.buffer.height) {
        Some("click target is outside the selected window"@)
    } else {
        None
    }
}

/// The click on the one place of a label. Places are counted in halves of a pixel.
pub fn click_input(places: &Vec<(i32, i32)>, window: &Window, label: &str) -> (out: Result<
    Input,
    CaptureError,
>)
    ensures
        match click_fault(ocr::points(places@), *window, label@) {
            Some(fault) => out matches Err(error) && error.says(None, fault),
            None => out == Ok::<Input, CaptureError>(
                Input::Click { x: places@[0].0, y: places@[0].1 },
            ) && helper::input_wf(out->Ok_0),
        },
{
    assert(ocr::points(places@).len() == places@.len());
    if places.len() != 1 {
        return Err(
            CaptureError::plain(
                cat5(
                    "click text '",
                    label,
                    "' matched ",
                    decimal(places.len() as u128).as_str(),
                    " locations; expected exactly one",
                ),
            ),
        );
    }
    let (x, y) = places[0];
    assert(ocr::points(places@)[0] == (x as int, y as int));
    if !(0 <= x && (x as i64) < 2 * (window.buffer.width as i64) && 0 <= y && (y as i64) < 2 * (
    window.buffer.height as i64)) {
        return Err(CaptureError::plain(owned("click target is outside the selected window")));
    }
    Ok(Input::Click { x, y })
}

/// Nothing is clicked outside the window, or where the label has no place or several.
pub proof fn clicks_hit_the_one_label(places: Seq<(int, int)>, window: Window, label: Seq<char>)
    requires
        click_fault(places, window, label) is None,
    ensures
        places.len() == 1,
        0 <= places[0].0,
        places[0].0 < 2 * window.buffer.width,
        0 <= places[0].1,
        places[0].1 < 2 * window.buffer.height,
{
}

// ---------------------------------------------------------------------------
// The first window

/// How far the search for the first window has come.
#[derive(Debug)]
pub enum WindowStart {
    /// List the windows.
    Select,
    /// Wait before they are listed again.
    SelectWait,
    /// Ask the window to take the size of the recipe.
    Resize { id: u64 },
    /// List the windows, to see its size.
    Size { id: u64 },
    /// Wait before its size is seen again; this is the size it has.
    SizeWait { id: u64, width: u32, height: u32 },
    /// Capture the window.
    Observe { id: u64, seen: FrameObservation },
    /// Wait before it is captured again.
    ObserveWait { id: u64, seen: FrameObservation },
    /// Look whether the desktop and the app are still there.
    Check { outcome: Result<u64, CaptureError> },
    Ready { id: u64 },
    Failed { error: CaptureError },
}

/// What came of the last thing that was done about a window.
#[derive(Debug)]
pub enum WindowEvent {
    /// These windows of the app are there.
    Windows(Result<Vec<Window>, CaptureError>),
    /// The wait ended, or was cut short.
    Slept(Result<(), String>),
    /// The helper did what it was asked.
    Done(Result<(), CaptureError>),
    /// The window was captured, and its picture inspected.
    Snapshot { result: Result<(Window, ImageInfo), CaptureError>, now: Instant },
    /// The processes were looked at.
    Health(Result<(), CaptureError>),
}

/// The place of the first window with an id.
pub open spec fn place_of(windows: Seq<Window>, id: u64, from: int) -> Option<int>
    decreases windows.len() - from,
{
    if from < 0 || from >= windows.len() {
        None
    } else if windows[from].id == id {
        Some(from)
    } else {
        place_of(windows, id, from + 1)
    }
}

fn find_window(windows: &Vec<Window>, id: u64) -> (out: Option<usize>)
    ensures
        match out {
            Some(at) => place_of(windows@, id, 0) == Some(at as int) && at < windows@.len(),
            None => place_of(windows@, id, 0) is None,
        },
{
    let mut i: usize = 0;
    while i < windows.len()
        invariant
            i <= windows@.len(),
            place_of(windows@, id, 0) == place_of(windows@, id, i as int),
        decreases windows@.len() - i,
    {
        if windows[i].id == id {
            return Some(i);
        }
        i = i + 1;
    }
    None
}

impl WindowStart {
    /// Whether an event is what the search waits for.
    pub open spec fn awaits(&self, event: WindowEvent) -> bool {
        match *self {
            WindowStart::Select => event is Windows,
            WindowStart::SelectWait => event is Slept,
            WindowStart::Resize { .. } => event is Done,
            WindowStart::Size { .. } => event is Windows,
            WindowStart::SizeWait { .. } => event is Slept,
            WindowStart::Observe { seen, .. } => event is Snapshot && seen.samples < usize::MAX,
            WindowStart::ObserveWait { .. } => event is Slept,
            WindowStart::Check { .. } => event is Health,
            _ => false,
        }
    }

    /// The search gave up, with this error unless a process ended.
    pub open spec fn gives_up(&self, reason: Option<FailureReason>, message: Seq<char>) -> bool {
        *self matches WindowStart::Check { outcome: Err(error) } && error.says(reason, message)
    }

    pub open spec fn gives_up_with(&self, error: CaptureError) -> bool {
        *self == (WindowStart::Check { outcome: Err(error) })
    }
}

/// An error, told as the end of a wait where the time is up.
pub open spec fn timed(
    error: (Option<FailureReason>, Seq<char>),
    late: bool,
    doing: Seq<char>,
) -> (Option<FailureReason>, Seq<char>) {
    if late {
        (Some(FailureReason::WindowTimeout), doing + ": "@ + error.1)
    } else {
        error
    }
}

fn time_error(error: CaptureError, late: bool, doing: &str) -> (out: CaptureError)
    ensures
        ({
            let told = timed((error.reason, error.message@), late, doing@);
            out.says(told.0, told.1)
        }),
        !late ==> out == error,
{
    if late {
        CaptureError::failure(
            FailureReason::WindowTimeout,
            cat3(doing, ": ", error.message.as_str()),
        )
    } else {
        error
    }
}

/// What is told of a window that does not take a size.
pub open spec fn size_refusal(requested: recipe::Window, width: u32, height: u32) -> Seq<char> {
    "window did not accept "@ + size_text(requested.width as nat, requested.height as nat)
        + "; actual size "@ + size_text(width as nat, height as nat)
}

/// How the search for the first window goes on.
pub open spec fn start_step(
    start: WindowStart,
    requested: recipe::Window,
    event: WindowEvent,
    late: bool,
    out: WindowStart,
) -> bool {
    match (start, event) {
        (WindowStart::Select, WindowEvent::Windows(listed)) => match listed {
            Err(error) => out.gives_up_with(error),
            Ok(windows) => match chosen(windows@, text::option_view(requested.title)) {
                Choice::Found(id) => out == (WindowStart::Resize { id }),
                Choice::Missing => out is SelectWait,
                Choice::Ambiguous(count) => out.gives_up(None, ambiguity(count as nat)),
            },
        },
        (WindowStart::SelectWait, WindowEvent::Slept(slept)) => match slept {
            Ok(_) => out is Select,
            Err(message) => out.gives_up(
                Some(FailureReason::WindowTimeout),
                search_timeout(text::option_view(requested.title), message@),
            ),
        },
        (WindowStart::Resize { id }, WindowEvent::Done(done)) => match done {
            Ok(_) => out == (WindowStart::Size { id }),
            Err(error) => out.gives_up_with(error),
        },
        (WindowStart::Size { id }, WindowEvent::Windows(listed)) => match listed {
            Err(error) => out.gives_up_with(error),
            Ok(windows) => match place_of(windows@, id, 0) {
                None => out.gives_up(None, "initial window closed while resizing"@),
                Some(at) => {
                    let frame = windows@[at].frame;
                    if frame.width == requested.width && frame.height == requested.height {
                        out matches WindowStart::Observe { id: kept, seen } && kept == id
                            && seen.describes(Seq::empty())
                    } else {
                        out == (WindowStart::SizeWait {
                            id,
                            width: frame.width,
                            height: frame.height,
                        })
                    }
                },
            },
        },
        (WindowStart::SizeWait { id, width, height }, WindowEvent::Slept(slept)) => match slept {
            Ok(_) => out == (WindowStart::Size { id }),
            Err(_) => out.gives_up(
                Some(FailureReason::ScreenshotFailed),
                size_refusal(requested, width, height),
            ),
        },
        (WindowStart::Observe { id, seen }, WindowEvent::Snapshot { result, now }) => match result {
            Err(error) => {
                let told = timed(
                    (error.reason, error.message@),
                    late,
                    "window did not become ready"@,
                );
                out.gives_up(told.0, told.1)
            },
            Ok((_, image)) => {
                let after = seen.after(image.has_content, now);
                if after.ready(now) {
                    out == (WindowStart::Check { outcome: Ok(id) })
                } else {
                    out == (WindowStart::ObserveWait { id, seen: after })
                }
            },
        },
        (WindowStart::ObserveWait { id, seen }, WindowEvent::Slept(slept)) => match slept {
            Ok(_) => out == (WindowStart::Observe { id, seen }),
            Err(message) => {
                let told = timed((None, message@), late, "window did not become ready"@);
                out.gives_up(told.0, told.1)
            },
        },
        (WindowStart::Check { outcome }, WindowEvent::Health(health)) => match health {
            Err(error) => out == (WindowStart::Failed { error }),
            Ok(_) => match outcome {
                Ok(id) => out == (WindowStart::Ready { id }),
                Err(error) => {
                    let told = timed(
                        (error.reason, error.message@),
                        late,
                        "initial window did not become ready"@,
                    );
                    out matches WindowStart::Failed { error: failure } && failure.says(
                        told.0,
                        told.1,
                    )
                },
            },
        },
        _ => out == start,
    }
}

fn give_up(error: CaptureError) -> (out: WindowStart)
    ensures
        out.gives_up_with(error),
{
    WindowStart::Check { outcome: Err(error) }
}

impl WindowStart {
    /// Goes on after an event. `late` tells whether the time for the window is up.
    pub fn advance(self, requested: &recipe::Window, event: WindowEvent, late: bool) -> (out: Self)
        requires
            self.awaits(event),
        ensures
            start_step(self, *requested, event, late, out),
    {
        match (self, event) {
            (WindowStart::Select, WindowEvent::Windows(listed)) => match listed {
                Err(error) => give_up(error),
                Ok(windows) => match select(&windows, &requested.title) {
                    Choice::Found(id) => WindowStart::Resize { id },
                    Choice::Missing => WindowStart::SelectWait,
                    Choice::Ambiguous(count) => give_up(ambiguous(count)),
                },
            },
            (WindowStart::SelectWait, WindowEvent::Slept(slept)) => match slept {
                Ok(()) => WindowStart::Select,
                Err(message) => give_up(window_timeout(&requested.title, message.as_str())),
            },
            (WindowStart::Resize { id }, WindowEvent::Done(done)) => match done {
                Ok(()) => WindowStart::Size { id },
                Err(error) => give_up(error),
            },
            (WindowStart::Size { id }, WindowEvent::Windows(listed)) => match listed {
                Err(error) => give_up(error),
                Ok(windows) => match find_window(&windows, id) {
                    None => give_up(
                        CaptureError::plain(owned("initial window closed while resizing")),
                    ),
                    Some(at) => {
                        let width: u32 = windows[at].frame.width;
                        let height: u32 = windows[at].frame.height;
                        if width == requested.width && height == requested.height {
                            WindowStart::Observe { id, seen: FrameObservation::default() }
                        } else {
                            WindowStart::SizeWait { id, width, height }
                        }
                    },
                },
            },
            (WindowStart::SizeWait { id, width, height }, WindowEvent::Slept(slept)) => match slept {
                Ok(()) => WindowStart::Size { id },
                Err(_) => give_up(
                    CaptureError::failure(
                        FailureReason::ScreenshotFailed,
                        cat4(
                            "window did not accept ",
                            size(requested.width, requested.height).as_str(),
                            "; actual size ",
                            size(width, height).as_str(),
                        ),
                    ),
                ),
            },
            (WindowStart::Observe { id, seen }, WindowEvent::Snapshot { result, now }) => {
                match result {
                    Err(error) => give_up(time_error(error, late, "window did not become ready")),
                    Ok((_, image)) => {
                        let mut seen = seen;
                        if seen.observe(image.has_content, now) {
                            WindowStart::Check { outcome: Ok(id) }
                        } else {
                            WindowStart::ObserveWait { id, seen }
                        }
                    },
                }
            },
            (WindowStart::ObserveWait { id, seen }, WindowEvent::Slept(slept)) => match slept {
                Ok(()) => WindowStart::Observe { id, seen },
                Err(message) => give_up(
                    time_error(CaptureError::plain(message), late, "window did not become ready"),
                ),
            },
            (WindowStart::Check { outcome }, WindowEvent::Health(health)) => match health {
                Err(error) => WindowStart::Failed { error },
                Ok(()) => match outcome {
                    Ok(id) => WindowStart::Ready { id },
                    Err(error) => WindowStart::Failed {
                        error: time_error(error, late, "initial window did not become ready"),
                    },
                },
            },
            (start, _) => start,
        }
    }
}

/// A process that ended counts before anything else that went wrong with the first window.
pub proof fn exits_come_before_window_errors(
    outcome: Result<u64, CaptureError>,
    requested: recipe::Window,
    exit: CaptureError,
    late: bool,
    out: WindowStart,
)
    requires
        start_step(
            WindowStart::Check { outcome },
            requested,
            WindowEvent::Health(Err(exit)),
            late,
            out,
        ),
    ensures
        out == (WindowStart::Failed { error: exit }),
{
}

// ---------------------------------------------------------------------------
// The steps of a recipe

/// What is done next about a step, or after the last one.
#[derive(Debug)]
pub enum Phase {
    /// Begin the step: log it, and set its deadline.
    Begin,
    /// List the windows.
    Select,
    /// Wait before they are listed again.
    SelectWait,
    /// Capture the selected window, to see whether its content stays.
    Observe { seen: FrameObservation },
    /// Wait before it is captured again.
    ObserveWait { seen: FrameObservation },
    /// Keep the last picture as a screenshot.
    Save { window: Window, image: ImageInfo },
    /// Capture the selected window, to read its text.
    Look,
    /// Read the text of the picture.
    Read { window: Window },
    /// Log where the label to click stands.
    Candidates { places: Vec<(i32, i32)>, window: Window },
    /// Wait before the window is captured again.
    LookWait,
    /// Do this to the selected window.
    Act { input: Input },
    /// Look whether the desktop and the app are still there, after a step that is done.
    Check,
    /// The same after a step that failed.
    Judge { error: CaptureError },
    /// Look whether there is time left.
    Budget,
    /// List the windows for the last time.
    FinalWindows,
    /// Look whether the desktop and the app are still there, for the last time.
    FinalCheck,
    Finished,
    Failed { error: CaptureError },
    /// A reading gave places that 32-bit numbers cannot hold.
    Unfit,
}

/// What came of the last thing that was done.
#[derive(Debug)]
pub enum WorkEvent {
    /// The step was logged.
    Begun(Result<(), String>),
    /// These windows of the app are there.
    Windows(Result<Vec<Window>, CaptureError>),
    /// The wait ended, or was cut short.
    Slept(Result<(), String>),
    /// The window was captured, and its picture inspected.
    Snapshot { result: Result<(Window, ImageInfo), CaptureError>, now: Instant },
    /// The screenshot was kept.
    Saved(Result<(), String>),
    /// The text was read, twice.
    Text(Result<Vec<String>, CaptureError>),
    /// The places were logged.
    Logged(Result<(), String>),
    /// The helper did what it was asked.
    Done(Result<(), CaptureError>),
    /// The processes were looked at.
    Health(Result<(), CaptureError>),
    /// This much time is left.
    Budget(Result<Duration, BudgetError>),
}

/// The name of the file of screenshot number `index`.
pub open spec fn capture_file(index: nat, name: Seq<char>) -> Seq<char> {
    number::padded_seq(index, 3) + "-"@ + name + ".png"@
}

/// The names of captures, in order.
pub open spec fn taken_names(captures: Seq<Capture>) -> Seq<Seq<char>> {
    Seq::new(captures.len(), |i: int| captures[i].name@)
}

/// The course of a recipe on a window.
#[derive(Debug)]
pub struct WorkflowRun {
    pub recipe: Recipe,
    pub index: usize,
    pub selected: u64,
    pub phase: Phase,
    pub manifest: Manifest,
}

/// Whether a phase belongs to a step.
pub open spec fn in_step(phase: Phase) -> bool {
    !(phase is Budget || phase is FinalWindows || phase is FinalCheck || phase is Finished
        || phase is Failed)
}

/// Whether a phase can come up in a step with this action.
pub open spec fn suits(phase: Phase, action: Action) -> bool {
    match phase {
        Phase::Select | Phase::SelectWait => action is SelectWindow,
        Phase::Observe { .. } | Phase::ObserveWait { .. } => action is SelectWindow
            || action is Capture,
        Phase::Save { .. } => action is Capture,
        Phase::Look | Phase::Read { .. } => action is ClickText || action is WaitText,
        Phase::Candidates { .. } => action is ClickText,
        Phase::LookWait => action is WaitText,
        Phase::Act { input } => helper::input_wf(input) && (action is ClickText || action is TypeText
            || action is Key),
        _ => true,
    }
}

impl WorkflowRun {
    pub open spec fn action(&self) -> Action {
        self.recipe.steps@[self.index as int].action
    }

    /// How many steps are done as far as captures go.
    pub open spec fn steps_done(&self) -> int {
        if self.phase is Check {
            self.index + 1
        } else {
            self.index as int
        }
    }

    /// The captures so far are those of the steps so far, in order and under their paths; a step
    /// that is under way is the one that would be blamed, and none is once all are done.
    pub open spec fn wf(&self) -> bool {
        let steps = self.recipe.steps@;
        let captures = self.manifest.captures@;
        &&& self.index <= steps.len()
        &&& in_step(self.phase) ==> {
            &&& self.index < steps.len()
            &&& suits(self.phase, self.action())
            &&& self.manifest.failed_step_index == Some(self.index)
        }
        &&& !in_step(self.phase) && !(self.phase is Failed) ==> {
            &&& self.index == steps.len()
            &&& self.manifest.failed_step_index is None
        }
        &&& !(self.phase is Failed) ==> taken_names(captures) == recipe::capture_names(
            steps.take(self.steps_done()),
        )
        &&& text::begins(recipe::capture_names(steps), taken_names(captures))
        &&& forall|k: int|
            0 <= k < captures.len() ==> (#[trigger] captures[k]).path@ == session::relative_path(
                capture_file(k as nat, captures[k].name@),
            )
    }

    /// A recipe at its beginning: its first step is under way, or it has none.
    pub open spec fn begins(&self, recipe: Recipe, selected: u64, head: Manifest) -> bool {
        &&& self.recipe == recipe
        &&& self.index == 0
        &&& self.selected == selected
        &&& manifest::heads_agree(self.manifest, head)
        &&& self.manifest.captures@.len() == 0
        &&& if recipe.steps@.len() > 0 {
            self.phase is Begin && self.manifest.failed_step_index == Some(0usize)
        } else {
            self.phase is Budget && self.manifest.failed_step_index is None
        }
    }

    /// Nothing changed but the phase.
    pub open spec fn keeps(&self, out: &Self) -> bool {
        &&& out.recipe == self.recipe
        &&& out.index == self.index
        &&& out.selected == self.selected
        &&& out.manifest == self.manifest
    }

    /// The step failed, with this error unless a process ended.
    pub open spec fn fails_step(
        &self,
        out: &Self,
        reason: Option<FailureReason>,
        message: Seq<char>,
    ) -> bool {
        self.keeps(out) && (out.phase matches Phase::Judge { error } && error.says(reason, message))
    }

    pub open spec fn fails_step_with(&self, out: &Self, error: CaptureError) -> bool {
        self.keeps(out) && out.phase == (Phase::Judge { error })
    }

    /// The recipe failed.
    pub open spec fn fails(
        &self,
        out: &Self,
        reason: Option<FailureReason>,
        message: Seq<char>,
    ) -> bool {
        self.keeps(out) && (out.phase matches Phase::Failed { error } && error.says(
            reason,
            message,
        ))
    }

    pub open spec fn goes_to(&self, out: &Self, phase: Phase) -> bool {
        self.keeps(out) && out.phase == phase
    }

    /// Whether an event is what the recipe waits for.
    pub open spec fn awaits(&self, event: WorkEvent) -> bool {
        match self.phase {
            Phase::Begin => event is Begun,
            Phase::Select => event is Windows,
            Phase::SelectWait => event is Slept,
            Phase::Observe { seen } => event is Snapshot && seen.samples < usize::MAX,
            Phase::ObserveWait { .. } => event is Slept,
            Phase::Save { .. } => event is Saved,
            Phase::Look => event is Snapshot,
            Phase::Read { .. } => event is Text,
            Phase::Candidates { .. } => event is Logged,
            Phase::LookWait => event is Slept,
            Phase::Act { .. } => event is Done,
            Phase::Check => event is Health,
            Phase::Judge { .. } => event is Health,
            Phase::Budget => event is Budget,
            Phase::FinalWindows => event is Windows,
            Phase::FinalCheck => event is Health,
            _ => false,
        }
    }
}

/// The first phase of a step after it began.
pub open spec fn first_phase(action: Action, phase: Phase) -> bool {
    match action {
        Action::SelectWindow(_) => phase is Select,
        Action::Capture(_) => phase matches Phase::Observe { seen } && seen.describes(Seq::empty()),
        Action::ClickText(_) => phase is Look,
        Action::WaitText(_) => phase is Look,
        Action::TypeText(typed) => phase matches Phase::Act { input: Input::Text(sent) } && sent@
            == typed@,
        Action::Key(keys) => phase matches Phase::Act { input: Input::Key(sent) } && sent@
            == keys@,
    }
}

/// The title that a step selects a window by.
pub open spec fn step_title(action: Action) -> Seq<char> {
    action->SelectWindow_0.title@
}

/// The label that a step clicks or waits for.
pub open spec fn step_label(action: Action) -> Seq<char> {
    match action {
        Action::ClickText(label) => label@,
        Action::WaitText(label) => label@,
        _ => Seq::empty(),
    }
}

/// What a step is called where it fails.
pub open spec fn step_name(index: nat) -> Seq<char> {
    "recipe step "@ + number::decimal_seq(index)
}

/// What a reading of the window's text leads to.
pub open spec fn read_step(
    run: WorkflowRun,
    window: Window,
    passes: Vec<String>,
    out: WorkflowRun,
) -> bool {
    let tables = text::views(passes@);
    let label = step_label(run.action());
    if !images::places_fit(tables, label) {
        run.goes_to(&out, Phase::Unfit)
    } else if run.action() is ClickText {
        run.keeps(&out) && (out.phase matches Phase::Candidates { places, window: kept } && kept
            == window && ocr::points(places@) == images::label_matches(tables, label))
    } else if images::label_matches(tables, label).len() > 0 {
        run.goes_to(&out, Phase::Check)
    } else {
        run.goes_to(&out, Phase::LookWait)
    }
}

/// What a capture is recorded as.
pub open spec fn records(
    capture: Capture,
    asked: recipe::Capture,
    index: nat,
    window: Window,
    image: ImageInfo,
) -> bool {
    &&& capture.name@ == asked.name@
    &&& capture.path@ == session::relative_path(capture_file(index, asked.name@))
    &&& capture.caption@ == asked.caption@
    &&& capture.language@ == "en"@
    &&& capture.width == image.width
    &&& capture.height == image.height
    &&& capture.window_width == window.frame.width
    &&& capture.window_height == window.frame.height
}

/// A manifest with nothing changed but the captures and the step that would be blamed.
pub open spec fn same_head(a: Manifest, b: Manifest) -> bool {
    &&& a.schema_version == b.schema_version
    &&& a.desktop == b.desktop
    &&& a.desktop_version == b.desktop_version
    &&& a.language == b.language
    &&& a.scale == b.scale
    &&& a.recipe_version == b.recipe_version
    &&& a.app_ref == b.app_ref
}

/// How a recipe goes on after a step that is done.
pub open spec fn next_step(run: WorkflowRun, out: WorkflowRun) -> bool {
    &&& out.recipe == run.recipe
    &&& out.selected == run.selected
    &&& out.index == run.index + 1
    &&& same_head(out.manifest, run.manifest)
    &&& out.manifest.captures == run.manifest.captures
    &&& if out.index < run.recipe.steps@.len() {
        out.phase is Begin && out.manifest.failed_step_index == Some(out.index)
    } else {
        out.phase is Budget && out.manifest.failed_step_index is None
    }
}

/// How a recipe goes on after an event.
pub open spec fn work_step(run: WorkflowRun, event: WorkEvent, out: WorkflowRun) -> bool {
    match (run.phase, event) {
        (Phase::Begin, WorkEvent::Begun(begun)) => match begun {
            Ok(_) => run.keeps(&out) && first_phase(run.action(), out.phase),
            Err(message) => run.fails(&out, None, message@),
        },
        (Phase::Select, WorkEvent::Windows(listed)) => match listed {
            Err(error) => run.fails_step_with(&out, error),
            Ok(windows) => match chosen(windows@, Some(step_title(run.action()))) {
                Choice::Found(id) => {
                    &&& out.recipe == run.recipe
                    &&& out.index == run.index
                    &&& out.manifest == run.manifest
                    &&& out.selected == id
                    &&& (out.phase matches Phase::Observe { seen } && seen.describes(Seq::empty()))
                },
                Choice::Missing => run.goes_to(&out, Phase::SelectWait),
                Choice::Ambiguous(count) => run.fails_step(&out, None, ambiguity(count as nat)),
            },
        },
        (Phase::SelectWait, WorkEvent::Slept(slept)) => match slept {
            Ok(_) => run.goes_to(&out, Phase::Select),
            Err(message) => run.fails_step(
                &out,
                Some(FailureReason::WindowTimeout),
                search_timeout(Some(step_title(run.action())), message@),
            ),
        },
        (Phase::Observe { seen }, WorkEvent::Snapshot { result, now }) => match result {
            Err(error) => run.fails_step_with(&out, error),
            Ok((window, image)) => {
                let after = seen.after(image.has_content, now);
                if !after.ready(now) {
                    run.goes_to(&out, Phase::ObserveWait { seen: after })
                } else if run.action() is Capture {
                    run.goes_to(&out, Phase::Save { window, image })
                } else {
                    run.goes_to(&out, Phase::Check)
                }
            },
        },
        (Phase::ObserveWait { seen }, WorkEvent::Slept(slept)) => match slept {
            Ok(_) => run.goes_to(&out, Phase::Observe { seen }),
            Err(message) => run.fails_step(&out, None, message@),
        },
        (Phase::Save { window, image }, WorkEvent::Saved(saved)) => match saved {
            Err(message) => run.fails_step(&out, None, message@),
            Ok(_) => {
                let before = run.manifest.captures@;
                let after = out.manifest.captures@;
                &&& out.recipe == run.recipe
                &&& out.index == run.index
                &&& out.selected == run.selected
                &&& out.phase is Check
                &&& same_head(out.manifest, run.manifest)
                &&& out.manifest.failed_step_index == run.manifest.failed_step_index
                &&& after.len() == before.len() + 1
                &&& after.drop_last() == before
                &&& records(
                    after.last(),
                    run.action()->Capture_0,
                    before.len(),
                    window,
                    image,
                )
            },
        },
        (Phase::Look, WorkEvent::Snapshot { result, .. }) => match result {
            Err(error) => run.fails_step_with(&out, error),
            Ok((window, _)) => run.goes_to(&out, Phase::Read { window }),
        },
        (Phase::Read { window }, WorkEvent::Text(read)) => match read {
            Err(error) => run.fails_step_with(&out, error),
            Ok(passes) => read_step(run, window, passes, out),
        },
        (Phase::Candidates { places, window }, WorkEvent::Logged(logged)) => match logged {
            Err(message) => run.fails_step(&out, None, message@),
            Ok(_) => match click_fault(
                ocr::points(places@),
                window,
                step_label(run.action()),
            ) {
                Some(fault) => run.fails_step(&out, None, fault),
                None => run.goes_to(
                    &out,
                    Phase::Act { input: Input::Click { x: places@[0].0, y: places@[0].1 } },
                ),
            },
        },
        (Phase::LookWait, WorkEvent::Slept(slept)) => match slept {
            Ok(_) => run.goes_to(&out, Phase::Look),
            Err(message) => run.fails_step(
                &out,
                None,
                "waiting for text '"@ + step_label(run.action()) + "'"@ + ": "@ + message@,
            ),
        },
        (Phase::Act { .. }, WorkEvent::Done(done)) => match done {
            Err(error) => run.fails_step_with(&out, error),
            Ok(_) => run.goes_to(&out, Phase::Check),
        },
        (Phase::Check, WorkEvent::Health(health)) => match health {
            Err(error) => run.goes_to(&out, Phase::Failed { error }),
            Ok(_) => next_step(run, out),
        },
        (Phase::Judge { error: cause }, WorkEvent::Health(health)) => match health {
            Err(error) => run.goes_to(&out, Phase::Failed { error }),
            Ok(_) => run.fails(
                &out,
                Some(
                    match cause.reason {
                        Some(reason) => reason,
                        None => FailureReason::ScreenshotFailed,
                    },
                ),
                step_name(run.index as nat) + ": "@ + cause.message@,
            ),
        },
        (Phase::Budget, WorkEvent::Budget(budget)) => match budget {
            Ok(_) => run.goes_to(&out, Phase::FinalWindows),
            Err(error) => run.fails(&out, None, process::budget_message(error)),
        },
        (Phase::FinalWindows, WorkEvent::Windows(listed)) => match listed {
            Ok(_) => run.goes_to(&out, Phase::FinalCheck),
            Err(error) => run.fails(
                &out,
                Some(FailureReason::ScreenshotFailed),
                "final helper check"@ + ": "@ + error.message@,
            ),
        },
        (Phase::FinalCheck, WorkEvent::Health(health)) => match health {
            Ok(_) => run.goes_to(&out, Phase::Finished),
            Err(error) => run.goes_to(&out, Phase::Failed { error }),
        },
        _ => run.goes_to(&out, run.phase),
    }
}

/// The names of the captures of some steps begin those of more.
proof fn lemma_names_grow(steps: Seq<Step>, count: int)
    requires
        0 <= count <= steps.len(),
    ensures
        text::begins(recipe::capture_names(steps), recipe::capture_names(steps.take(count))),
    decreases steps.len(),
{
    let part = recipe::capture_names(steps.take(count));
    if count == steps.len() {
        assert(steps.take(count) =~= steps);
        assert(part.take(part.len() as int) =~= part);
    } else {
        let shorter = steps.drop_last();
        lemma_names_grow(shorter, count);
        assert(shorter.take(count) =~= steps.take(count));
        let less = recipe::capture_names(shorter);
        let all = recipe::capture_names(steps);
        assert(all.take(part.len() as int) =~= less.take(part.len() as int));
    }
}

/// One more step adds the name of its capture, if it has one.
proof fn lemma_one_more(steps: Seq<Step>, index: int)
    requires
        0 <= index < steps.len(),
    ensures
        recipe::capture_names(steps.take(index + 1)) == match steps[index].action {
            Action::Capture(capture) => recipe::capture_names(steps.take(index)).push(
                capture.name@,
            ),
            _ => recipe::capture_names(steps.take(index)),
        },
{
    assert(steps.take(index + 1).drop_last() =~= steps.take(index));
    assert(steps.take(index + 1).last() == steps[index]);
}

/// A copy of symbols.
fn copied(keys: &Vec<u32>) -> (out: Vec<u32>)
    ensures
        out@ == keys@,
{
    let mut out: Vec<u32> = Vec::new();
    let mut i: usize = 0;
    while i < keys.len()
        invariant
            i <= keys@.len(),
            out@ == keys@.take(i as int),
        decreases keys@.len() - i,
    {
        out.push(keys[i]);
        i = i + 1;
    }
    assert(keys@.take(keys@.len() as int) =~= keys@);
    out
}

fn begin_phase(action: &Action) -> (out: Phase)
    ensures
        first_phase(*action, out),
        suits(out, *action),
        in_step(out) && !(out is Check),
{
    match action {
        Action::SelectWindow(_) => Phase::Select,
        Action::Capture(_) => Phase::Observe { seen: FrameObservation::default() },
        Action::ClickText(_) => Phase::Look,
        Action::WaitText(_) => Phase::Look,
        Action::TypeText(typed) => Phase::Act { input: Input::Text(owned(typed.as_str())) },
        Action::Key(keys) => Phase::Act { input: Input::Key(copied(keys)) },
    }
}

/// The name of the file of screenshot number `index`.
pub fn capture_file_name(index: usize, name: &str) -> (out: String)
    ensures
        out@ == capture_file(index as nat, name@),
{
    cat4(padded3(index as u128).as_str(), "-", name, ".png")
}

fn record(asked: &recipe::Capture, index: usize, window: &Window, image: &ImageInfo) -> (out: Capture)
    ensures
        records(out, *asked, index as nat, *window, *image),
{
    let file = capture_file_name(index, asked.name.as_str());
    Capture {
        name: owned(asked.name.as_str()),
        path: relative_screenshot_path(file.as_str()),
        caption: owned(asked.caption.as_str()),
        language: owned("en"),
        width: image.width,
        height: image.height,
        window_width: window.frame.width,
        window_height: window.frame.height,
    }
}

/// What a step is called where it fails.
pub fn step_log(index: usize) -> (out: String)
    ensures
        out@ == step_name(index as nat),
{
    cat2("recipe step ", decimal(index as u128).as_str())
}

impl WorkflowRun {
    /// Begins a recipe on the window `selected`, with no captures so far. What is known of the app
    /// and of the desktop is in `head`.
    pub fn new(recipe: Recipe, selected: u64, head: &Manifest) -> (out: Self)
        ensures
            out.wf(),
            out.begins(recipe, selected, *head),
    {
        let more = recipe.steps.len() > 0;
        let mut manifest = head.without_captures();
        if more {
            manifest.failed_step_index = Some(0);
        }
        proof {
            let names = recipe::capture_names(recipe.steps@);
            assert(recipe.steps@.take(0) =~= Seq::empty());
            assert(taken_names(manifest.captures@) =~= Seq::empty());
            assert(names.take(0) =~= Seq::empty());
        }
        WorkflowRun {
            recipe,
            index: 0,
            selected,
            phase: if more {
                Phase::Begin
            } else {
                Phase::Budget
            },
            manifest,
        }
    }

    /// The name of the file of the next screenshot.
    pub fn next_file(&self) -> (out: Option<String>)
        requires
            self.wf(),
        ensures
            self.phase is Save ==> (out matches Some(name) && name@ == capture_file(
                self.manifest.captures@.len(),
                self.action()->Capture_0.name@,
            )),
            !(self.phase is Save) ==> out is None,
    {
        match &self.phase {
            Phase::Save { .. } => match &self.recipe.steps[self.index].action {
                Action::Capture(capture) => Some(
                    capture_file_name(self.manifest.captures.len(), capture.name.as_str()),
                ),
                _ => None,
            },
            _ => None,
        }
    }

    /// The timeout of the step: its own, or else `default_timeout`.
    pub fn step_timeout(&self, default_timeout: Duration) -> (out: Duration)
        requires
            self.index < self.recipe.steps@.len(),
        ensures
            out == match self.recipe.steps@[self.index as int].timeout {
                Some(timeout) => timeout,
                None => default_timeout,
            },
    {
        match self.recipe.steps[self.index].timeout {
            Some(timeout) => timeout,
            None => default_timeout,
        }
    }

    /// Goes on after an event.
    pub fn advance(self, event: WorkEvent) -> (out: Self)
        requires
            self.wf(),
            self.awaits(event),
        ensures
            work_step(self, event, out),
            out.wf(),
    {
        let ghost before = self;
        let WorkflowRun { recipe, index, selected, phase, manifest } = self;
        let mut index = index;
        let mut selected = selected;
        let mut manifest = manifest;
        let total: usize = recipe.steps.len();
        proof {
            if before.index < before.recipe.steps@.len() {
                lemma_one_more(before.recipe.steps@, before.index as int);
                lemma_names_grow(before.recipe.steps@, before.index + 1);
            }
            lemma_names_grow(before.recipe.steps@, before.index as int);
        }
        let next = match (phase, event) {
            (Phase::Begin, WorkEvent::Begun(begun)) => match begun {
                Ok(()) => begin_phase(&recipe.steps[index].action),
                Err(message) => Phase::Failed { error: CaptureError::plain(message) },
            },
            (Phase::Select, WorkEvent::Windows(listed)) => match listed {
                Err(error) => Phase::Judge { error },
                Ok(windows) => {
                    let title = match &recipe.steps[index].action {
                        Action::SelectWindow(selection) => Some(owned(selection.title.as_str())),
                        _ => None,
                    };
                    match select(&windows, &title) {
                        Choice::Found(id) => {
                            selected = id;
                            Phase::Observe { seen: FrameObservation::default() }
                        },
                        Choice::Missing => Phase::SelectWait,
                        Choice::Ambiguous(count) => Phase::Judge { error: ambiguous(count) },
                    }
                },
            },
            (Phase::SelectWait, WorkEvent::Slept(slept)) => match slept {
                Ok(()) => Phase::Select,
                Err(message) => {
                    let title = match &recipe.steps[index].action {
                        Action::SelectWindow(selection) => Some(owned(selection.title.as_str())),
                        _ => None,
                    };
                    Phase::Judge { error: window_timeout(&title, message.as_str()) }
                },
            },
            (Phase::Observe { seen }, WorkEvent::Snapshot { result, now }) => match result {
                Err(error) => Phase::Judge { error },
                Ok((window, image)) => {
                    let mut seen = seen;
                    let ready = seen.observe(image.has_content, now);
                    if !ready {
                        Phase::ObserveWait { seen }
                    } else {
                        match &recipe.steps[index].action {
                            Action::Capture(_) => Phase::Save { window, image },
                            _ => Phase::Check,
                        }
                    }
                },
            },
            (Phase::ObserveWait { seen }, WorkEvent::Slept(slept)) => match slept {
                Ok(()) => Phase::Observe { seen },
                Err(message) => Phase::Judge { error: CaptureError::plain(message) },
            },
            (Phase::Save { window, image }, WorkEvent::Saved(saved)) => match saved {
                Err(message) => Phase::Judge { error: CaptureError::plain(message) },
                Ok(()) => {
                    match &recipe.steps[index].action {
                        Action::Capture(capture) => {
                            let taken = record(capture, manifest.captures.len(), &window, &image);
                            manifest.captures.push(taken);
                            assert(manifest.captures@.drop_last() =~= before.manifest.captures@);
                            assert(taken_names(manifest.captures@) =~= taken_names(
                                before.manifest.captures@,
                            ).push(capture.name@));
                        },
                        _ => {},
                    }
                    Phase::Check
                },
            },
            (Phase::Look, WorkEvent::Snapshot { result, .. }) => match result {
                Err(error) => Phase::Judge { error },
                Ok((window, _)) => Phase::Read { window },
            },
            (Phase::Read { window }, WorkEvent::Text(read)) => match read {
                Err(error) => Phase::Judge { error },
                Ok(passes) => match &recipe.steps[index].action {
                    Action::ClickText(label) => match crate::screenshot::images::matches(
                        &passes,
                        label.as_str(),
                    ) {
                        Some(places) => Phase::Candidates { places, window },
                        None => Phase::Unfit,
                    },
                    Action::WaitText(label) => match crate::screenshot::images::matches(
                        &passes,
                        label.as_str(),
                    ) {
                        Some(places) => {
                            assert(ocr::points(places@).len() == places@.len());
                            if places.len() > 0 {
                                Phase::Check
                            } else {
                                Phase::LookWait
                            }
                        },
                        None => Phase::Unfit,
                    },
                    _ => Phase::Unfit,
                },
            },
            (Phase::Candidates { places, window }, WorkEvent::Logged(logged)) => match logged {
                Err(message) => Phase::Judge { error: CaptureError::plain(message) },
                Ok(()) => match &recipe.steps[index].action {
                    Action::ClickText(label) => match click_input(
                        &places,
                        &window,
                        label.as_str(),
                    ) {
                        Ok(input) => Phase::Act { input },
                        Err(error) => Phase::Judge { error },
                    },
                    _ => Phase::Unfit,
                },
            },
            (Phase::LookWait, WorkEvent::Slept(slept)) => match slept {
                Ok(()) => Phase::Look,
                Err(message) => match &recipe.steps[index].action {
                    Action::WaitText(label) => Phase::Judge {
                        error: CaptureError::plain(message).context(
                            cat3("waiting for text '", label.as_str(), "'").as_str(),
                        ),
                    },
                    _ => Phase::Unfit,
                },
            },
            (Phase::Act { .. }, WorkEvent::Done(done)) => match done {
                Err(error) => Phase::Judge { error },
                Ok(()) => Phase::Check,
            },
            (Phase::Check, WorkEvent::Health(health)) => match health {
                Err(error) => Phase::Failed { error },
                Ok(()) => {
                    index = index + 1;
                    if index < total {
                        manifest.failed_step_index = Some(index);
                        Phase::Begin
                    } else {
                        manifest.failed_step_index = None;
                        Phase::Budget
                    }
                },
            },
            (Phase::Judge { error: cause }, WorkEvent::Health(health)) => match health {
                Err(error) => Phase::Failed { error },
                Ok(()) => Phase::Failed {
                    error: cause.context(step_log(index).as_str()).or_reason(
                        FailureReason::ScreenshotFailed,
                    ),
                },
            },
            (Phase::Budget, WorkEvent::Budget(budget)) => match budget {
                Ok(_) => Phase::FinalWindows,
                Err(error) => Phase::Failed {
                    error: CaptureError::plain(owned(error.message())),
                },
            },
            (Phase::FinalWindows, WorkEvent::Windows(listed)) => match listed {
                Ok(_) => Phase::FinalCheck,
                Err(error) => Phase::Failed {
                    error: CaptureError::failure(
                        FailureReason::ScreenshotFailed,
                        cat3("final helper check", ": ", error.message.as_str()),
                    ),
                },
            },
            (Phase::FinalCheck, WorkEvent::Health(health)) => match health {
                Ok(()) => Phase::Finished,
                Err(error) => Phase::Failed { error },
            },
            (phase, _) => phase,
        };
        let out = WorkflowRun { recipe, index, selected, phase: next, manifest };
        proof {
            assert forall|k: int| 0 <= k < out.manifest.captures@.len() implies (
            #[trigger] out.manifest.captures@[k]).path@ == session::relative_path(
                capture_file(k as nat, out.manifest.captures@[k].name@),
            ) by {
                if k < before.manifest.captures@.len() {
                    assert(out.manifest.captures@[k] == before.manifest.captures@[k]);
                }
            }
        }
        out
    }
}

/// A recipe that came to its end has exactly the captures that it asks for, in order, and blames
/// no step.
pub proof fn finished_recipes_have_every_capture(run: WorkflowRun)
    requires
        run.wf(),
        run.phase is Finished,
    ensures
        taken_names(run.manifest.captures@) == recipe::capture_names(run.recipe.steps@),
        run.manifest.failed_step_index is None,
{
    assert(run.recipe.steps@.take(run.index as int) =~= run.recipe.steps@);
}

/// A step that is under way is the one that is blamed if it fails, and the captures of the steps
/// before it stay.
pub proof fn failures_blame_their_step(run: WorkflowRun, event: WorkEvent, out: WorkflowRun)
    requires
        run.wf(),
        in_step(run.phase),
        work_step(run, event, out),
        out.phase is Failed,
    ensures
        out.manifest.failed_step_index == Some(run.index),
        out.manifest.captures == run.manifest.captures,
{
}

/// A failure after the last step blames no step.
pub proof fn later_failures_blame_no_step(run: WorkflowRun, event: WorkEvent, out: WorkflowRun)
    requires
        run.wf(),
        !in_step(run.phase),
        !(run.phase is Failed),
        work_step(run, event, out),
    ensures
        out.manifest.failed_step_index is None,
        out.manifest.captures == run.manifest.captures,
{
}

/// Whatever happens, a recipe keeps the captures that it has, and what is known of the app and of
/// the desktop.
pub proof fn recipes_keep_their_captures(run: WorkflowRun, event: WorkEvent, out: WorkflowRun)
    requires
        work_step(run, event, out),
    ensures
        text::begins(out.manifest.captures@, run.manifest.captures@),
        same_head(out.manifest, run.manifest),
{
    let before = run.manifest.captures@;
    let after = out.manifest.captures@;
    if out.manifest.captures == run.manifest.captures {
        assert(after.take(before.len() as int) =~= before);
    } else {
        assert(after.take(before.len() as int) =~= after.drop_last());
    }
}

/// Whether a name of a file is one component of a path, and no special one.
pub open spec fn is_plain_file(file: Seq<char>) -> bool {
    file.len() > 0 && text::is_digit(file[0]) && !file.contains('/') && !file.contains('\0')
}

/// The file of a screenshot that an accepted recipe asks for stays in the directory of the
/// screenshots.
pub proof fn accepted_captures_have_plain_files(recipe: Recipe, index: nat, name: Seq<char>)
    requires
        recipe::recipe_fault(recipe) is None,
        recipe::capture_names(recipe.steps@).contains(name),
    ensures
        is_plain_file(capture_file(index, name)),
{
    reveal_strlit("-");
    reveal_strlit(".png");
    recipe::accepted_recipes_are_in_order(recipe);
    let names = recipe::capture_names(recipe.steps@);
    let k = choose|k: int| 0 <= k < names.len() && names[k] == name;
    assert(recipe::name_ok(names[k]));
    number::lemma_padded_value(index, 3);
    let number = number::padded_seq(index, 3);
    let file = capture_file(index, name);
    assert(number.len() >= 3);
    assert(file[0] == number[0]);
    assert forall|i: int| 0 <= i < file.len() implies file[i] != '/' && file[i] != '\0' by {
        if i < number.len() {
            assert(file[i] == number[i]);
            assert(text::is_digit(number[i]));
        } else if number.len() < i <= number.len() + name.len() {
            assert(file[i] == name[i - number.len() - 1]);
            assert(recipe::name_char(name[i - number.len() - 1]));
        }
    }
}

/// Whether screenshots lie in their directory, each under its number and its name.
pub open spec fn in_the_directory(captures: Seq<Capture>) -> bool {
    forall|k: int|
        0 <= k < captures.len() ==> (#[trigger] captures[k]).path@ == session::relative_path(
            capture_file(k as nat, captures[k].name@),
        ) && is_plain_file(capture_file(k as nat, captures[k].name@))
}

/// Every screenshot of an accepted recipe lies in the directory of the screenshots.
pub proof fn captures_stay_in_the_directory(run: WorkflowRun)
    requires
        run.wf(),
        recipe::recipe_fault(run.recipe) is None,
    ensures
        in_the_directory(run.manifest.captures@),
{
    let captures = run.manifest.captures@;
    let names = recipe::capture_names(run.recipe.steps@);
    let taken = taken_names(captures);
    assert forall|k: int| 0 <= k < captures.len() implies (#[trigger] captures[k]).path@
        == session::relative_path(capture_file(k as nat, captures[k].name@)) && is_plain_file(
        capture_file(k as nat, captures[k].name@),
    ) by {
        assert(names.subrange(0, taken.len() as int)[k] == taken[k]);
        assert(names[k] == taken[k]);
        accepted_captures_have_plain_files(run.recipe, k as nat, taken[k]);
    }
}

/// Screenshots of a recipe have different files.
pub proof fn capture_files_are_distinct(
    first: nat,
    first_name: Seq<char>,
    second: nat,
    second_name: Seq<char>,
)
    requires
        capture_file(first, first_name) == capture_file(second, second_name),
    ensures
        first == second,
        first_name == second_name,
{
    reveal_strlit("-");
    reveal_strlit(".png");
    let a = number::padded_seq(first, 3);
    let b = number::padded_seq(second, 3);
    let file = capture_file(first, first_name);
    let same = capture_file(second, second_name);
    number::lemma_padded_value(first, 3);
    number::lemma_padded_value(second, 3);
    assert(file[a.len() as int] == '-');
    assert(same[b.len() as int] == '-');
    if a.len() < b.len() {
        assert(same[a.len() as int] == b[a.len() as int]);
        assert(text::is_digit(b[a.len() as int]));
    }
    if b.len() < a.len() {
        assert(file[b.len() as int] == a[b.len() as int]);
        assert(text::is_digit(a[b.len() as int]));
    }
    assert(a =~= file.take(a.len() as int));
    assert(b =~= same.take(b.len() as int));
    number::padded_form_is_unique(first, second, 3);
    let start = a.len() as int + 1;
    assert(first_name =~= file.subrange(start, file.len() - 4));
    assert(second_name =~= same.subrange(start, same.len() - 4));
}

} // verus!
