//! Which window is meant, and when it is there.
use crate::capture::{FrameObservation, Sample};
use crate::result::FailureReason;
use crate::screenshot::desktop::Window;
use crate::screenshot::images::ImageInfo;
use crate::screenshot::workflow::{Choice, WindowEvent, WindowStart};
use crate::screenshot::{recipe, workflow, CaptureError};
use crate::time::Instant;
use crate::{capture, number, text};
use vstd::prelude::*;

verus! {

/// The windows with a title.
pub open spec fn titled(windows: Seq<Window>, title: Seq<char>) -> Seq<Window> {
    windows.filter(|window: Window| window.title@ == title)
}

/// The windows that belong to no other window.
pub open spec fn independent(windows: Seq<Window>) -> Seq<Window> {
    windows.filter(|window: Window| !window.transient)
}

proof fn lemma_meant_by_title(windows: Seq<Window>, title: Seq<char>)
    ensures
        ({
            let places = workflow::meant(windows, Some(title));
            let kept = titled(windows, title);
            &&& places.len() == kept.len()
            &&& forall|k: int|
                0 <= k < places.len() ==> 0 <= #[trigger] places[k] < windows.len()
                    && windows[places[k]] == kept[k]
        }),
    decreases windows.len(),
{
    reveal(Seq::filter);
    if windows.len() > 0 {
        lemma_meant_by_title(windows.drop_last(), title);
        assert(windows =~= windows.drop_last().push(windows.last()));
    }
}

proof fn lemma_meant_without_title(windows: Seq<Window>)
    ensures
        ({
            let places = workflow::meant(windows, None);
            let kept = independent(windows);
            &&& places.len() == kept.len()
            &&& forall|k: int|
                0 <= k < places.len() ==> 0 <= #[trigger] places[k] < windows.len()
                    && windows[places[k]] == kept[k]
        }),
    decreases windows.len(),
{
    reveal(Seq::filter);
    if windows.len() > 0 {
        lemma_meant_without_title(windows.drop_last());
        assert(windows =~= windows.drop_last().push(windows.last()));
    }
}

/// A title means the windows of exactly that title, whatever else they are: one of them is found,
/// none is missing, and several are counted.
pub proof fn titles_choose_their_windows(windows: Seq<Window>, title: Seq<char>)
    requires
        windows.len() <= usize::MAX,
    ensures
        ({
            let kept = titled(windows, title);
            let choice = workflow::chosen(windows, Some(title));
            &&& kept.len() == 0 ==> choice == Choice::Missing
            &&& kept.len() == 1 ==> choice == Choice::Found(kept[0].id)
            &&& kept.len() > 1 ==> choice == Choice::Ambiguous(kept.len() as usize)
        }),
{
    lemma_meant_by_title(windows, title);
    windows.lemma_filter_len(|window: Window| window.title@ == title);
}

/// Without a title, the windows that belong to no other are meant.
pub proof fn independent_windows_are_chosen(windows: Seq<Window>)
    requires
        windows.len() <= usize::MAX,
    ensures
        ({
            let kept = independent(windows);
            let choice = workflow::chosen(windows, None);
            &&& kept.len() == 0 ==> choice == Choice::Missing
            &&& kept.len() == 1 ==> choice == Choice::Found(kept[0].id)
            &&& kept.len() > 1 ==> choice == Choice::Ambiguous(kept.len() as usize)
        }),
{
    lemma_meant_without_title(windows);
    windows.lemma_filter_len(|window: Window| !window.transient);
}

/// The only window with a title is found by it, a dialog too.
pub proof fn the_one_titled_window_is_found(windows: Seq<Window>, title: Seq<char>, at: int)
    requires
        0 <= at < windows.len(),
        windows[at].title@ == title,
        forall|i: int| 0 <= i < windows.len() && i != at ==> (#[trigger] windows[i]).title@ != title,
    ensures
        workflow::chosen(windows, Some(title)) == Choice::Found(windows[at].id),
{
    lemma_only(windows, Some(title), at);
}

/// The only window that belongs to no other is found without a title.
pub proof fn the_one_independent_window_is_found(windows: Seq<Window>, at: int)
    requires
        0 <= at < windows.len(),
        !windows[at].transient,
        forall|i: int| 0 <= i < windows.len() && i != at ==> (#[trigger] windows[i]).transient,
    ensures
        workflow::chosen(windows, None) == Choice::Found(windows[at].id),
{
    lemma_only(windows, None, at);
}

spec fn wanted(window: Window, title: Option<Seq<char>>) -> bool {
    match title {
        Some(title) => window.title@ == title,
        None => !window.transient,
    }
}

proof fn lemma_none(windows: Seq<Window>, title: Option<Seq<char>>)
    requires
        forall|i: int| 0 <= i < windows.len() ==> !wanted(#[trigger] windows[i], title),
    ensures
        workflow::meant(windows, title).len() == 0,
    decreases windows.len(),
{
    if windows.len() > 0 {
        let fewer = windows.drop_last();
        assert forall|i: int| 0 <= i < fewer.len() implies !wanted(#[trigger] fewer[i], title) by {
            assert(fewer[i] == windows[i]);
        }
        lemma_none(fewer, title);
        assert(!wanted(windows[windows.len() - 1], title));
    }
}

proof fn lemma_only(windows: Seq<Window>, title: Option<Seq<char>>, at: int)
    requires
        0 <= at < windows.len(),
        wanted(windows[at], title),
        forall|i: int| 0 <= i < windows.len() && i != at ==> !wanted(#[trigger] windows[i], title),
    ensures
        workflow::meant(windows, title) == seq![at],
    decreases windows.len(),
{
    let fewer = windows.drop_last();
    if at == windows.len() - 1 {
        assert forall|i: int| 0 <= i < fewer.len() implies !wanted(#[trigger] fewer[i], title) by {
            assert(fewer[i] == windows[i]);
        }
        lemma_none(fewer, title);
        assert(workflow::meant(windows, title) =~= seq![at]);
    } else {
        assert forall|i: int| 0 <= i < fewer.len() && i != at implies !wanted(
            #[trigger] fewer[i],
            title,
        ) by {
            assert(fewer[i] == windows[i]);
        }
        lemma_only(fewer, title, at);
        assert(!wanted(windows[windows.len() - 1], title));
    }
}

/// The windows of an app are those with its name, in order.
pub proof fn own_windows_have_the_apps_name(windows: Seq<Window>, app_id: Seq<char>)
    ensures
        workflow::own_windows(windows, app_id) == windows.filter(
            |window: Window| window.app_id@ == app_id,
        ),
    decreases windows.len(),
{
    reveal(Seq::filter);
    if windows.len() > 0 {
        own_windows_have_the_apps_name(windows.drop_last(), app_id);
        assert(windows =~= windows.drop_last().push(windows.last()));
    }
}

/// Looks at a window, one after the other: whether it showed something, and when.
pub open spec fn looked(looks: Seq<(bool, Instant)>) -> FrameObservation
    decreases looks.len(),
{
    if looks.len() == 0 {
        FrameObservation { visible_since: None, samples: 0 }
    } else {
        looked(looks.drop_last()).after(looks.last().0, looks.last().1)
    }
}

/// Whether the last looks, from number `first` on, all showed something.
pub open spec fn visible_from(looks: Seq<(bool, Instant)>, first: int) -> bool {
    &&& 0 <= first
    &&& first > 0 ==> !looks[first - 1].0
    &&& forall|k: int| first <= k < looks.len() ==> (#[trigger] looks[k]).0
}

spec fn samples(looks: Seq<(bool, Instant)>) -> Seq<Sample> {
    Seq::new(looks.len(), |i: int| Sample { visible: looks[i].0, at: looks[i].1@ })
}

proof fn lemma_looked(looks: Seq<(bool, Instant)>)
    requires
        looks.len() < usize::MAX,
    ensures
        looked(looks).describes(samples(looks)),
        looked(looks).samples <= looks.len(),
    decreases looks.len(),
{
    if looks.len() > 0 {
        let fewer = looks.drop_last();
        lemma_looked(fewer);
        capture::readiness_needs_content_that_stays(
            looked(fewer),
            samples(fewer),
            looks.last().0,
            looks.last().1,
        );
        assert(samples(looks) =~= samples(fewer).push(
            Sample { visible: looks.last().0, at: looks.last().1@ },
        ));
    }
}

proof fn lemma_run(looks: Seq<(bool, Instant)>, first: int)
    requires
        visible_from(looks, first),
        first <= looks.len(),
    ensures
        capture::visible_run(samples(looks)) == looks.len() - first,
    decreases looks.len(),
{
    let all = samples(looks);
    if looks.len() > 0 {
        let fewer = looks.drop_last();
        assert(all.drop_last() =~= samples(fewer));
        assert(all.last().visible == looks[looks.len() - 1].0);
        if first < looks.len() {
            assert(looks[looks.len() - 1].0);
            assert(visible_from(fewer, first)) by {
                assert forall|k: int| first <= k < fewer.len() implies (#[trigger] fewer[k]).0 by {
                    assert(fewer[k] == looks[k]);
                }
            }
            lemma_run(fewer, first);
        } else {
            assert(!looks[first - 1].0);
        }
    }
}

/// What a window shows has stayed exactly when it was seen at the last three looks or more, without
/// a break, and the first of these looks is at least three quarters of a second ago.
pub proof fn content_stays_when_it_is_seen_again_and_again(
    looks: Seq<(bool, Instant)>,
    first: int,
)
    requires
        0 < looks.len() < usize::MAX,
        visible_from(looks, first),
        first <= looks.len(),
    ensures
        looked(looks).ready(looks.last().1) <==> looks.len() - first >= 3 && looks.last().1@
            - looks[first].1@ >= 750_000_000,
{
    lemma_looked(looks);
    lemma_run(looks, first);
    let all = samples(looks);
    if looks.len() - first >= 3 {
        assert(all[all.len() - (looks.len() - first)].at == looks[first].1@);
    }
}

/// The first window is the one that is meant. It is asked to take its size, it is observed once it
/// has exactly that size, and it is ready once what it shows has stayed and all processes are there.
pub proof fn first_windows_become_ready(
    requested: recipe::Window,
    windows: Vec<Window>,
    resized: Vec<Window>,
    at: int,
    late: bool,
    looks: Seq<(bool, Instant)>,
    shown: (Window, ImageInfo),
    now: Instant,
    outs: Seq<WindowStart>,
)
    requires
        outs.len() == 5,
        workflow::start_step(
            WindowStart::Select,
            requested,
            WindowEvent::Windows(Ok(windows)),
            late,
            outs[0],
        ),
        0 <= at < windows@.len(),
        match requested.title {
            Some(title) => windows@[at].title@ == title@ && forall|i: int|
                0 <= i < windows@.len() && i != at ==> (#[trigger] windows@[i]).title@ != title@,
            None => !windows@[at].transient && forall|i: int|
                0 <= i < windows@.len() && i != at ==> (#[trigger] windows@[i]).transient,
        },
        workflow::start_step(outs[0], requested, WindowEvent::Done(Ok(())), late, outs[1]),
        workflow::start_step(outs[1], requested, WindowEvent::Windows(Ok(resized)), late, outs[2]),
        exists|i: int|
            {
                &&& 0 <= i < resized@.len()
                &&& (#[trigger] resized@[i]).id == windows@[at].id
                &&& resized@[i].frame.width == requested.width
                &&& resized@[i].frame.height == requested.height
                &&& forall|j: int| 0 <= j < i ==> (#[trigger] resized@[j]).id != windows@[at].id
            },
        workflow::start_step(
            WindowStart::Observe { id: windows@[at].id, seen: looked(looks) },
            requested,
            WindowEvent::Snapshot { result: Ok(shown), now },
            late,
            outs[3],
        ),
        workflow::start_step(outs[3], requested, WindowEvent::Health(Ok(())), late, outs[4]),
    ensures
        outs[0] == (WindowStart::Resize { id: windows@[at].id }),
        outs[1] == (WindowStart::Size { id: windows@[at].id }),
        outs[2] == (WindowStart::Observe {
            id: windows@[at].id,
            seen: FrameObservation { visible_since: None, samples: 0 },
        }),
        looked(looks.push((shown.1.has_content, now))).ready(now) ==> outs[4] == (
        WindowStart::Ready { id: windows@[at].id }),
        !looked(looks.push((shown.1.has_content, now))).ready(now) ==> outs[3] == (
        WindowStart::ObserveWait {
            id: windows@[at].id,
            seen: looked(looks.push((shown.1.has_content, now))),
        }),
{
    match requested.title {
        Some(title) => the_one_titled_window_is_found(windows@, title@, at),
        None => the_one_independent_window_is_found(windows@, at),
    }
    let id = windows@[at].id;
    let i = choose|i: int|
        {
            &&& 0 <= i < resized@.len()
            &&& (#[trigger] resized@[i]).id == id
            &&& resized@[i].frame.width == requested.width
            &&& resized@[i].frame.height == requested.height
            &&& forall|j: int| 0 <= j < i ==> (#[trigger] resized@[j]).id != id
        };
    lemma_place(resized@, id, i, 0);
    let longer = looks.push((shown.1.has_content, now));
    assert(longer.drop_last() =~= looks);
}

proof fn lemma_place(windows: Seq<Window>, id: u64, at: int, from: int)
    requires
        0 <= from <= at < windows.len(),
        windows[at].id == id,
        forall|j: int| from <= j < at ==> (#[trigger] windows[j]).id != id,
    ensures
        workflow::place_of(windows, id, from) == Some(at),
    decreases at - from,
{
    if from < at {
        assert(windows[from].id != id);
        lemma_place(windows, id, at, from + 1);
    }
}

proof fn lemma_no_place(windows: Seq<Window>, id: u64, from: int)
    requires
        0 <= from,
        forall|j: int| from <= j < windows.len() ==> (#[trigger] windows[j]).id != id,
    ensures
        workflow::place_of(windows, id, from) is None,
    decreases windows.len() - from,
{
    if from < windows.len() {
        assert(windows[from].id != id);
        lemma_no_place(windows, id, from + 1);
    }
}

/// A window is ready only where it was observed under the same number, and only once what it shows
/// has stayed and all processes are there. It is observed only once it has its size, and a window
/// is asked for its size only where it was the one that is meant.
pub proof fn ready_windows_were_observed(
    start: WindowStart,
    requested: recipe::Window,
    event: WindowEvent,
    late: bool,
    out: WindowStart,
)
    requires
        start.awaits(event),
        workflow::start_step(start, requested, event, late, out),
    ensures
        out matches WindowStart::Ready { id } ==> start == (WindowStart::Check { outcome: Ok(id) })
            && (event matches WindowEvent::Health(Ok(_))),
        out matches WindowStart::Check { outcome: Ok(id) } ==> (start matches WindowStart::Observe {
            id: kept,
            seen,
        } && kept == id && (event matches WindowEvent::Snapshot { result: Ok(shown), now }
            && seen.after(shown.1.has_content, now).ready(now))),
        out matches WindowStart::ObserveWait { id, .. } ==> (start matches WindowStart::Observe {
            id: kept,
            ..
        } && kept == id),
        out matches WindowStart::Observe { id, seen } ==> {
            ||| start == (WindowStart::ObserveWait { id, seen }) && (
            event matches WindowEvent::Slept(Ok(_)))
            ||| start == (WindowStart::Size { id }) && seen.samples == 0 && (
            event matches WindowEvent::Windows(Ok(windows)) && exists|i: int|
                0 <= i < windows@.len() && (#[trigger] windows@[i]).id == id
                    && windows@[i].frame.width == requested.width && windows@[i].frame.height
                    == requested.height)
        },
        out matches WindowStart::Size { id } ==> {
            ||| start == (WindowStart::Resize { id }) && (event matches WindowEvent::Done(Ok(_)))
            ||| (start matches WindowStart::SizeWait { id: kept, .. } && kept == id && (
            event matches WindowEvent::Slept(Ok(_))))
        },
        out matches WindowStart::SizeWait { id, width, height } ==> start == (WindowStart::Size {
            id,
        }) && (event matches WindowEvent::Windows(Ok(windows)) && (width != requested.width
            || height != requested.height) && exists|i: int|
            0 <= i < windows@.len() && (#[trigger] windows@[i]).id == id && windows@[i].frame.width
                == width && windows@[i].frame.height == height),
        out is Resize ==> start is Select,
{
    if let WindowEvent::Windows(Ok(windows)) = event {
        if let WindowStart::Size { id } = start {
            lemma_place_holds(windows@, id, 0);
        }
    }
}

proof fn lemma_place_holds(windows: Seq<Window>, id: u64, from: int)
    requires
        0 <= from,
    ensures
        workflow::place_of(windows, id, from) matches Some(at) ==> from <= at < windows.len()
            && windows[at].id == id,
    decreases windows.len() - from,
{
    if from < windows.len() && windows[from].id != id {
        lemma_place_holds(windows, id, from + 1);
    }
}

/// What goes wrong with the first window is told once the processes were looked at: as the end of
/// the wait where the time is up, and else as it was.
pub proof fn window_errors_are_told(
    start: WindowStart,
    requested: recipe::Window,
    error: CaptureError,
    late: bool,
    outs: Seq<WindowStart>,
)
    requires
        outs.len() == 2,
        start is Select || start is Size,
        workflow::start_step(start, requested, WindowEvent::Windows(Err(error)), late, outs[0]),
        workflow::start_step(outs[0], requested, WindowEvent::Health(Ok(())), late, outs[1]),
    ensures
        outs[1] matches WindowStart::Failed { error: told } && if late {
            told.reason == Some(FailureReason::WindowTimeout) && told.message@
                == "initial window did not become ready"@ + ": "@ + error.message@
        } else {
            told.reason == error.reason && told.message@ == error.message@
        },
{
}

/// The other ways to fail: the desktop refuses to resize, the window is gone, it does not take its
/// size in time, no window is there in time, and several are meant.
pub proof fn windows_can_fail_to_become_ready(
    requested: recipe::Window,
    id: u64,
    windows: Vec<Window>,
    width: u32,
    height: u32,
    message: String,
    error: CaptureError,
    late: bool,
    out: WindowStart,
)
    ensures
        workflow::start_step(
            WindowStart::Resize { id },
            requested,
            WindowEvent::Done(Err(error)),
            late,
            out,
        ) ==> out == (WindowStart::Check { outcome: Err(error) }),
        workflow::start_step(
            WindowStart::Size { id },
            requested,
            WindowEvent::Windows(Ok(windows)),
            late,
            out,
        ) && (forall|j: int| 0 <= j < windows@.len() ==> (#[trigger] windows@[j]).id != id) ==> (
        out matches WindowStart::Check { outcome: Err(told) } && told.reason is None
            && told.message@ == "initial window closed while resizing"@),
        workflow::start_step(
            WindowStart::SizeWait { id, width, height },
            requested,
            WindowEvent::Slept(Err(message)),
            late,
            out,
        ) ==> (out matches WindowStart::Check { outcome: Err(told) } && told.reason == Some(
            FailureReason::ScreenshotFailed,
        )),
        workflow::start_step(
            WindowStart::SelectWait,
            requested,
            WindowEvent::Slept(Err(message)),
            late,
            out,
        ) ==> (out matches WindowStart::Check { outcome: Err(told) } && told.reason == Some(
            FailureReason::WindowTimeout,
        )),
{
    if forall|j: int| 0 <= j < windows@.len() ==> (#[trigger] windows@[j]).id != id {
        lemma_no_place(windows@, id, 0);
    }
}

/// A picture counts only where the window is not scaled, fits the screen, and is as large as its
/// picture.
pub proof fn pictures_fit_their_windows(window: Window, image: ImageInfo)
    ensures
        workflow::snapshot_fault(window, image) is None <==> window.scale.one
            && window.frame.width <= 1000 && window.frame.height <= 700 && image.width
            == window.buffer.width && image.height == window.buffer.height,
{
}

/// A picture that does not count is refused with what is wrong: the scale first, then the size, then
/// a picture of another size than the window's buffer.
pub proof fn wrong_pictures_are_told(window: Window, image: ImageInfo)
    ensures
        !window.scale.one ==> workflow::snapshot_fault(window, image) == Some(
            "unsupported window scale "@ + window.scale.written@ + "; expected 1"@,
        ),
        window.scale.one && (window.frame.width > 1000 || window.frame.height > 700)
            ==> workflow::snapshot_fault(window, image) == Some(
            "window size "@ + (number::decimal_seq(window.frame.width as nat) + "x"@
                + number::decimal_seq(window.frame.height as nat)) + " exceeds 1000x700"@,
        ),
        window.scale.one && window.frame.width <= 1000 && window.frame.height <= 700 && (
        image.width != window.buffer.width || image.height != window.buffer.height)
            ==> workflow::snapshot_fault(window, image) == Some(
            "native image and window buffer dimensions differ"@,
        ),
{
}

/// After a wait, what was waited for is looked at again: the list of windows, the size of the
/// window, or its content, with all that was seen of it so far.
pub proof fn waits_for_a_window_go_on(
    requested: recipe::Window,
    id: u64,
    width: u32,
    height: u32,
    seen: FrameObservation,
    shown: (Window, ImageInfo),
    now: Instant,
    late: bool,
    out: WindowStart,
)
    ensures
        workflow::start_step(
            WindowStart::SelectWait,
            requested,
            WindowEvent::Slept(Ok(())),
            late,
            out,
        ) ==> out == WindowStart::Select,
        workflow::start_step(
            WindowStart::SizeWait { id, width, height },
            requested,
            WindowEvent::Slept(Ok(())),
            late,
            out,
        ) ==> out == (WindowStart::Size { id }),
        workflow::start_step(
            WindowStart::ObserveWait { id, seen },
            requested,
            WindowEvent::Slept(Ok(())),
            late,
            out,
        ) ==> out == (WindowStart::Observe { id, seen }),
        workflow::start_step(
            WindowStart::Observe { id, seen },
            requested,
            WindowEvent::Snapshot { result: Ok(shown), now },
            late,
            out,
        ) ==> {
            let after = seen.after(shown.1.has_content, now);
            &&& after.ready(now) ==> out == (WindowStart::Check { outcome: Ok(id) })
            &&& !after.ready(now) ==> out == (WindowStart::ObserveWait { id, seen: after })
        },
{
}

/// A list without the window that is meant leads to a wait, and one with several such windows is an
/// error. A window that has another size than it should have is looked at again.
pub proof fn windows_are_waited_for(
    requested: recipe::Window,
    id: u64,
    windows: Vec<Window>,
    at: int,
    late: bool,
    out: WindowStart,
)
    requires
        windows@.len() <= usize::MAX,
    ensures
        workflow::start_step(
            WindowStart::Select,
            requested,
            WindowEvent::Windows(Ok(windows)),
            late,
            out,
        ) ==> ({
            let kept = match requested.title {
                Some(title) => titled(windows@, title@),
                None => independent(windows@),
            };
            &&& kept.len() == 0 ==> out is SelectWait
            &&& kept.len() == 1 ==> out == (WindowStart::Resize { id: kept[0].id })
            &&& kept.len() > 1 ==> (out matches WindowStart::Check { outcome: Err(told) }
                && told.reason is None && told.message@ == "ambiguous window selection: "@
                + number::decimal_seq(kept.len())
                + " matching windows; specify a unique title"@)
        }),
        workflow::start_step(
            WindowStart::Size { id },
            requested,
            WindowEvent::Windows(Ok(windows)),
            late,
            out,
        ) && 0 <= at < windows@.len() && windows@[at].id == id && (forall|j: int|
            0 <= j < at ==> (#[trigger] windows@[j]).id != id) && (windows@[at].frame.width
            != requested.width || windows@[at].frame.height != requested.height) ==> out == (
        WindowStart::SizeWait {
            id,
            width: windows@[at].frame.width,
            height: windows@[at].frame.height,
        }),
{
    match requested.title {
        Some(title) => {
            titles_choose_their_windows(windows@, title@);
            windows@.lemma_filter_len(|window: Window| window.title@ == title@);
        },
        None => {
            independent_windows_are_chosen(windows@);
            windows@.lemma_filter_len(|window: Window| !window.transient);
        },
    }
    if 0 <= at < windows@.len() && windows@[at].id == id && (forall|j: int|
        0 <= j < at ==> (#[trigger] windows@[j]).id != id) {
        lemma_first_place(windows@, id, 0, at);
    }
}

proof fn lemma_first_place(windows: Seq<Window>, id: u64, from: int, at: int)
    requires
        0 <= from <= at < windows.len(),
        windows[at].id == id,
        forall|j: int| from <= j < at ==> (#[trigger] windows[j]).id != id,
    ensures
        workflow::place_of(windows, id, from) == Some(at),
    decreases at - from,
{
    if from < at {
        lemma_first_place(windows, id, from + 1, at);
    }
}

/// What is told of a first window that does not come, does not take its size or cannot be looked at.
/// Where the time is up, that is told as the end of the wait. Where a process ended, that counts.
pub proof fn late_windows_are_told(
    requested: recipe::Window,
    id: u64,
    width: u32,
    height: u32,
    seen: FrameObservation,
    message: String,
    error: CaptureError,
    outcome: Result<u64, CaptureError>,
    now: Instant,
    late: bool,
    out: WindowStart,
)
    ensures
        workflow::start_step(
            WindowStart::SelectWait,
            requested,
            WindowEvent::Slept(Err(message)),
            late,
            out,
        ) ==> (out matches WindowStart::Check { outcome: Err(told) } && told.reason == Some(
            FailureReason::WindowTimeout,
        ) && told.message@ == "waiting for app window "@ + workflow::debug_text(
            text::option_view(requested.title),
        ) + ": "@ + message@),
        workflow::start_step(
            WindowStart::SizeWait { id, width, height },
            requested,
            WindowEvent::Slept(Err(message)),
            late,
            out,
        ) ==> (out matches WindowStart::Check { outcome: Err(told) } && told.reason == Some(
            FailureReason::ScreenshotFailed,
        ) && told.message@ == "window did not accept "@ + (number::decimal_seq(
            requested.width as nat,
        ) + "x"@ + number::decimal_seq(requested.height as nat)) + "; actual size "@ + (
        number::decimal_seq(width as nat) + "x"@ + number::decimal_seq(height as nat))),
        workflow::start_step(
            WindowStart::Observe { id, seen },
            requested,
            WindowEvent::Snapshot { result: Err(error), now },
            late,
            out,
        ) ==> (out matches WindowStart::Check { outcome: Err(told) } && if late {
            told.reason == Some(FailureReason::WindowTimeout) && told.message@
                == "window did not become ready"@ + ": "@ + error.message@
        } else {
            told.reason == error.reason && told.message@ == error.message@
        }),
        workflow::start_step(
            WindowStart::ObserveWait { id, seen },
            requested,
            WindowEvent::Slept(Err(message)),
            late,
            out,
        ) ==> (out matches WindowStart::Check { outcome: Err(told) } && if late {
            told.reason == Some(FailureReason::WindowTimeout) && told.message@
                == "window did not become ready"@ + ": "@ + message@
        } else {
            told.reason is None && told.message@ == message@
        }),
        workflow::start_step(
            WindowStart::Check { outcome },
            requested,
            WindowEvent::Health(Err(error)),
            late,
            out,
        ) ==> out == (WindowStart::Failed { error }),
{
}

/// A start that ended stays as it is.
pub proof fn ended_starts_stay(
    start: WindowStart,
    requested: recipe::Window,
    event: WindowEvent,
    late: bool,
    out: WindowStart,
)
    requires
        start is Ready || start is Failed,
        workflow::start_step(start, requested, event, late, out),
    ensures
        out == start,
{
}

} // verus!
