//! The display of a session and what runs on it: how they are started, watched and cleaned up.
use crate::number::{decimal, parse_u32};
use crate::process::BudgetError;
use crate::result::FailureReason;
use crate::session::{ProcessState, SessionError};
use crate::text::{
    cat2, cat3, cat4, owned, same, same_bytes, split, split_bytes, strings, trim,
};
use crate::time::Duration;
use crate::{capture, number, process, text, time};
use vstd::prelude::*;

verus! {

/// The name of the display's socket.
pub open spec fn wayland_display() -> Seq<char> {
    "flatpak-smoke-wayland"@
}

/// The name of the display's socket.
pub fn display_name() -> (out: &'static str)
    ensures
        out@ == wayland_display(),
{
    "flatpak-smoke-wayland"
}

// ---------------------------------------------------------------------------
// Starting the display

/// The backends that the display is tried with, in order.
pub open spec fn backends() -> Seq<Seq<char>> {
    seq!["vnc"@, "vnc-backend.so"@]
}

/// The backend of a try, while there are more.
pub fn backend(index: usize) -> (out: Option<&'static str>)
    ensures
        match out {
            Some(name) => index < backends().len() && name@ == backends()[index as int],
            None => index >= backends().len(),
        },
{
    if index == 0 {
        Some("vnc")
    } else if index == 1 {
        Some("vnc-backend.so")
    } else {
        None
    }
}

/// What to do next about the start of the display.
#[derive(Debug)]
pub enum StartStep {
    /// Try this backend.
    Try(String),
    /// No backend works, or there is no time left.
    Fail(SessionError),
}

/// The next try: the failure of the last backend counts once all were tried.
pub fn start_weston(
    index: usize,
    budget: Result<Duration, BudgetError>,
    last_error: Option<SessionError>,
) -> (out: StartStep)
    ensures
        index < backends().len() ==> match budget {
            Ok(_) => out matches StartStep::Try(name) && name@ == backends()[index as int],
            Err(error) => out matches StartStep::Fail(failure) && failure.says(
                FailureReason::InternalError,
                process::budget_message(error),
            ),
        },
        index >= backends().len() ==> match last_error {
            Some(error) => out == StartStep::Fail(error),
            None => out matches StartStep::Fail(failure) && failure.says(
                FailureReason::DisplayStartFailed,
                "failed to start Weston"@,
            ),
        },
{
    match backend(index) {
        Some(name) => match budget {
            Ok(_) => StartStep::Try(owned(name)),
            Err(error) => StartStep::Fail(SessionError::internal(error.message())),
        },
        None => match last_error {
            Some(error) => StartStep::Fail(error),
            None => StartStep::Fail(
                SessionError::new(
                    FailureReason::DisplayStartFailed,
                    owned("failed to start Weston"),
                ),
            ),
        },
    }
}

/// The arguments of the display.
pub open spec fn display_arguments(backend: Seq<char>, display: Seq<char>, port: nat) -> Seq<
    Seq<char>,
> {
    seq![
        "--backend="@ + backend,
        "--socket="@ + display,
        "--address=127.0.0.1"@,
        "--port="@ + number::decimal_seq(port),
        "--width=1280"@,
        "--height=720"@,
        "--idle-time=0"@,
        "--debug"@,
        "--disable-transport-layer-security"@,
    ]
}

/// The arguments of the display.
pub fn weston_args(backend: &str, display: &str, vnc_port: u16) -> (out: Vec<String>)
    ensures
        text::views(out@) == display_arguments(backend@, display@, vnc_port as nat),
{
    let backend_arg = cat2("--backend=", backend);
    let socket_arg = cat2("--socket=", display);
    let port_arg = cat2("--port=", decimal(vnc_port as u128).as_str());
    let out = strings(
        vec![
            backend_arg.as_str(),
            socket_arg.as_str(),
            "--address=127.0.0.1",
            port_arg.as_str(),
            "--width=1280",
            "--height=720",
            "--idle-time=0",
            "--debug",
            "--disable-transport-layer-security",
        ],
    );
    assert(text::views(out@) =~= display_arguments(backend@, display@, vnc_port as nat));
    out
}

/// The failure of a display that could not be started.
pub fn weston_spawn_error(backend: &str, error: &str) -> (out: SessionError)
    ensures
        out.says(
            FailureReason::DisplayStartFailed,
            "failed to start Weston with backend '"@ + backend@ + "': "@ + error@,
        ),
{
    SessionError::new(
        FailureReason::DisplayStartFailed,
        cat4("failed to start Weston with backend '", backend, "': ", error),
    )
}

/// The line for the log when the display is started.
pub fn weston_log(display: &str, vnc_port: u16) -> (out: String)
    ensures
        out@ == "starting Weston Wayland display "@ + display@ + " with VNC input port "@
            + number::decimal_seq(vnc_port as nat),
{
    cat4(
        "starting Weston Wayland display ",
        display,
        " with VNC input port ",
        decimal(vnc_port as u128).as_str(),
    )
}

/// What to do next while the display starts.
#[derive(Debug)]
pub enum ReadyStep {
    /// Try to capture the screen.
    Capture,
    /// Look whether the display is still there.
    Recheck,
    /// Wait a little.
    Sleep,
    /// The display is ready.
    Ready,
    Fail(SessionError),
}

impl ReadyStep {
    pub open spec fn fails_with(&self, reason: FailureReason, message: Seq<char>) -> bool {
        *self matches ReadyStep::Fail(error) && error.says(reason, message)
    }
}

/// The wait for the display, which is ready once its screen can be captured.
#[derive(Debug)]
pub struct CompositorWait {
    pub timeout: Duration,
    pub last_error: Option<String>,
}

/// Why the display is not ready.
pub open spec fn not_ready(timeout: nat, last_error: Option<Seq<char>>) -> Seq<char> {
    "Weston Wayland display did not become ready within "@ + number::decimal_seq(
        timeout / 1_000_000_000,
    ) + "s: "@ + capture::last_words(last_error, "unknown readiness error"@)
}

impl CompositorWait {
    pub fn new(timeout: Duration) -> (out: Self)
        ensures
            out.timeout == timeout,
            out.last_error is None,
    {
        CompositorWait { timeout, last_error: None }
    }

    fn give_up(&self) -> (out: ReadyStep)
        ensures
            out.fails_with(
                FailureReason::DisplayStartFailed,
                not_ready(self.timeout@, text::option_view(self.last_error)),
            ),
    {
        let cause = match &self.last_error {
            Some(message) => trim(message.as_str()),
            None => trim("unknown readiness error"),
        };
        ReadyStep::Fail(
            SessionError::new(
                FailureReason::DisplayStartFailed,
                cat4(
                    "Weston Wayland display did not become ready within ",
                    decimal(self.timeout.as_secs()).as_str(),
                    "s: ",
                    cause.as_str(),
                ),
            ),
        )
    }

    /// Whether to try, given the time so far and what is known of the display.
    pub fn begin(&self, elapsed: Duration, weston: &ProcessState) -> (out: ReadyStep)
        ensures
            elapsed@ >= self.timeout@ ==> out.fails_with(
                FailureReason::DisplayStartFailed,
                not_ready(self.timeout@, text::option_view(self.last_error)),
            ),
            elapsed@ < self.timeout@ ==> match *weston {
                ProcessState::Running => out is Capture,
                ProcessState::Exited(status) => out.fails_with(
                    FailureReason::DisplayStartFailed,
                    "Weston exited before the Wayland display became ready with "@ + status@,
                ),
                ProcessState::Unknown(error) => out.fails_with(
                    FailureReason::InternalError,
                    error@,
                ),
            },
    {
        if elapsed.nanos >= self.timeout.nanos {
            return self.give_up();
        }
        match weston {
            ProcessState::Running => ReadyStep::Capture,
            ProcessState::Exited(status) => ReadyStep::Fail(
                SessionError::new(
                    FailureReason::DisplayStartFailed,
                    cat2(
                        "Weston exited before the Wayland display became ready with ",
                        status.as_str(),
                    ),
                ),
            ),
            ProcessState::Unknown(error) => ReadyStep::Fail(SessionError::internal(error.as_str())),
        }
    }

    /// What to do after a try to capture the screen.
    pub fn captured(&mut self, result: Result<(), SessionError>) -> (out: ReadyStep)
        ensures
            final(self).timeout == old(self).timeout,
            result is Ok ==> out is Recheck && final(self).last_error == old(self).last_error,
            result matches Err(error) ==> out is Sleep && final(self).last_error == Some(
                error.message,
            ),
    {
        match result {
            Ok(()) => ReadyStep::Recheck,
            Err(error) => {
                self.last_error = Some(error.message);
                ReadyStep::Sleep
            },
        }
    }

    /// Whether the display that could be captured is still there.
    pub fn rechecked(&self, weston: &ProcessState) -> (out: ReadyStep)
        ensures
            match *weston {
                ProcessState::Running => out is Ready,
                ProcessState::Exited(status) => out.fails_with(
                    FailureReason::DisplayStartFailed,
                    "Weston exited after display readiness check with "@ + status@,
                ),
                ProcessState::Unknown(error) => out.fails_with(
                    FailureReason::InternalError,
                    error@,
                ),
            },
    {
        match weston {
            ProcessState::Running => ReadyStep::Ready,
            ProcessState::Exited(status) => ReadyStep::Fail(
                SessionError::new(
                    FailureReason::DisplayStartFailed,
                    cat2("Weston exited after display readiness check with ", status.as_str()),
                ),
            ),
            ProcessState::Unknown(error) => ReadyStep::Fail(SessionError::internal(error.as_str())),
        }
    }

    /// What to do after a wait.
    pub fn slept(&mut self, result: Result<(), BudgetError>) -> (out: ReadyStep)
        ensures
            final(self).timeout == old(self).timeout,
            result is Ok ==> out is Capture && final(self).last_error == old(self).last_error,
            result matches Err(error) ==> out.fails_with(
                FailureReason::DisplayStartFailed,
                not_ready(old(self).timeout@, Some(process::budget_message(error))),
            ),
    {
        match result {
            Ok(()) => ReadyStep::Capture,
            Err(error) => {
                self.last_error = Some(owned(error.message()));
                self.give_up()
            },
        }
    }
}

// ---------------------------------------------------------------------------
// Ports

/// The first port of a display.
pub const FIRST_PORT: u16 = 5900;

/// The port after the last one of a display.
pub const END_PORT: u16 = 6000;

/// What is known of a port that is looked at.
#[derive(Debug)]
pub enum PortState {
    /// Something listens on it.
    Busy,
    /// Its lock was made.
    Locked,
    /// Another run holds its lock.
    Held,
    /// Its lock could not be made.
    Broken(String),
}

/// What to do next in the search for a port.
#[derive(Debug)]
pub enum PortStep {
    /// Look at this port.
    Try(u16),
    /// Take this port.
    Take(u16),
    Fail(SessionError),
}

/// The port to look at next, from `port` on.
pub fn next_port(port: u16, end: u16) -> (out: PortStep)
    ensures
        port < end ==> out == PortStep::Try(port),
        port >= end ==> (out matches PortStep::Fail(error) && error.says(
            FailureReason::DisplayStartFailed,
            "no free VNC port found in range 5900-5999"@,
        )),
{
    if port < end {
        PortStep::Try(port)
    } else {
        PortStep::Fail(
            SessionError::new(
                FailureReason::DisplayStartFailed,
                owned("no free VNC port found in range 5900-5999"),
            ),
        )
    }
}

/// What to do after a look at `port`: take it where its lock was made, else go on.
pub fn tried_port(port: u16, end: u16, state: PortState) -> (out: PortStep)
    requires
        port < end,
    ensures
        match state {
            PortState::Locked => out == PortStep::Take(port),
            PortState::Broken(message) => out matches PortStep::Fail(error) && error.says(
                FailureReason::InternalError,
                message@,
            ),
            _ => if port + 1 < end {
                out == PortStep::Try((port + 1) as u16)
            } else {
                out matches PortStep::Fail(error) && error.says(
                    FailureReason::DisplayStartFailed,
                    "no free VNC port found in range 5900-5999"@,
                )
            },
        },
{
    match state {
        PortState::Locked => PortStep::Take(port),
        PortState::Broken(message) => PortStep::Fail(SessionError::internal(message.as_str())),
        PortState::Busy | PortState::Held => next_port(port + 1, end),
    }
}

/// The name of the lock of a port.
pub fn lock_name(port: u16) -> (out: String)
    ensures
        out@ == "port-"@ + number::decimal_seq(port as nat) + ".lock"@,
{
    cat3("port-", decimal(port as u128).as_str(), ".lock")
}

/// The process that a lock names, if it names one.
pub fn lock_holder(contents: &str) -> (out: Option<u32>)
    ensures
        match out {
            Some(pid) => number::parse_unsigned(text::trimmed(contents@), u32::MAX as nat) == Some(
                pid as nat,
            ),
            None => number::parse_unsigned(text::trimmed(contents@), u32::MAX as nat) is None,
        },
{
    parse_u32(trim(contents).as_str())
}

/// Whether a lock may be removed: it names a process, and this process is gone.
pub fn is_stale_lock(holder: Option<u32>, holder_exists: bool) -> (yes: bool)
    ensures
        yes == (holder is Some && !holder_exists),
{
    holder.is_some() && !holder_exists
}

/// How long a connection to the display may take.
pub fn connect_timeout(left: Duration) -> (out: Duration)
    ensures
        out@ == time::smaller(left@, time::seconds(5)),
{
    left.shorter(Duration::from_secs(5))
}

/// The failure of a connection to the display.
pub fn connect_error(port: u16, error: &str) -> (out: SessionError)
    ensures
        out.says(
            FailureReason::DisplayStartFailed,
            "failed to connect to Weston VNC port "@ + number::decimal_seq(port as nat) + ": "@
                + error@,
        ),
{
    SessionError::new(
        FailureReason::DisplayStartFailed,
        cat4(
            "failed to connect to Weston VNC port ",
            decimal(port as u128).as_str(),
            ": ",
            error,
        ),
    )
}

/// The value of the first of some variables that is set, or `otherwise`.
pub open spec fn first_set(values: Seq<Option<Seq<char>>>, otherwise: Seq<char>) -> Seq<char>
    decreases values.len(),
{
    if values.len() == 0 {
        otherwise
    } else {
        match values[0] {
            Some(value) => value,
            None => first_set(values.skip(1), otherwise),
        }
    }
}

/// The user name and the password for the display: those that are set for it, else the user's
/// own name, and the usual password.
pub fn vnc_credentials(
    own_username: Option<String>,
    user: Option<String>,
    logname: Option<String>,
    own_password: Option<String>,
) -> (out: (String, String))
    ensures
        out.0@ == first_set(
            seq![
                text::option_view(own_username),
                text::option_view(user),
                text::option_view(logname),
            ],
            "root"@,
        ),
        out.1@ == first_set(seq![text::option_view(own_password)], "flatpak-smoke"@),
{
    proof {
        reveal_with_fuel(first_set, 4);
        let names = seq![
            text::option_view(own_username),
            text::option_view(user),
            text::option_view(logname),
        ];
        assert(names.skip(1)[0] == names[1]);
        assert(names.skip(1).skip(1)[0] == names[2]);
        assert(names.skip(1).skip(1).skip(1).len() == 0);
        assert(seq![text::option_view(own_password)].skip(1).len() == 0);
    }
    let username = match own_username {
        Some(name) => name,
        None => match user {
            Some(name) => name,
            None => match logname {
                Some(name) => name,
                None => owned("root"),
            },
        },
    };
    let password = match own_password {
        Some(password) => password,
        None => owned("flatpak-smoke"),
    };
    (username, password)
}

// ---------------------------------------------------------------------------
// The app

/// The ref as `flatpak run` takes it: the id and the branch of a full ref, and any other as it is.
pub open spec fn run_target(app_ref: Seq<char>) -> Seq<char> {
    let parts = text::split_on(app_ref, '/');
    if parts.len() == 4 && parts[0] == "app"@ {
        parts[1] + "//"@ + parts[3]
    } else {
        app_ref
    }
}

/// The ref as `flatpak run` takes it.
pub fn flatpak_run_target(app_ref: &str) -> (out: String)
    ensures
        out@ == run_target(app_ref@),
{
    let parts = split(app_ref, '/');
    assert(forall|i: int|
        0 <= i < parts@.len() ==> (#[trigger] parts@[i])@ == text::views(parts@)[i]);
    if parts.len() == 4 && same(parts[0].as_str(), "app") {
        cat3(parts[1].as_str(), "//", parts[3].as_str())
    } else {
        owned(app_ref)
    }
}

/// What starts the services of a desktop and then the app.
pub open spec fn service_script() -> Seq<char> {
    "\nset -eu\nprintf '\\n' | gnome-keyring-daemon --unlock --components=secrets >/dev/null\nexec flatpak run \"$@\"\n"@
}

/// The arguments that start an app on the display, with the services that it needs.
pub open spec fn app_arguments(app_ref: Seq<char>) -> Seq<Seq<char>> {
    seq![
        "--"@,
        "sh"@,
        "-c"@,
        service_script(),
        "flatpak-smoke-session"@,
        "--env=GDK_BACKEND=wayland"@,
        "--env=QT_QPA_PLATFORM=wayland"@,
        "--env=SDL_VIDEODRIVER=wayland"@,
        "--env=CLUTTER_BACKEND=wayland"@,
        "--env=MOZ_ENABLE_WAYLAND=1"@,
        "--env=XDG_SESSION_TYPE=wayland"@,
        "--env=GSK_RENDERER=cairo"@,
        "--env=GTK_A11Y=none"@,
        "--env=LIBGL_ALWAYS_SOFTWARE=1"@,
        run_target(app_ref),
    ]
}

/// The arguments that start an app on the display, with the services that it needs.
pub fn app_args(app_ref: &str) -> (out: Vec<String>)
    ensures
        text::views(out@) == app_arguments(app_ref@),
{
    let target = flatpak_run_target(app_ref);
    let out = strings(
        vec![
            "--",
            "sh",
            "-c",
            "\nset -eu\nprintf '\\n' | gnome-keyring-daemon --unlock --components=secrets >/dev/null\nexec flatpak run \"$@\"\n",
            "flatpak-smoke-session",
            "--env=GDK_BACKEND=wayland",
            "--env=QT_QPA_PLATFORM=wayland",
            "--env=SDL_VIDEODRIVER=wayland",
            "--env=CLUTTER_BACKEND=wayland",
            "--env=MOZ_ENABLE_WAYLAND=1",
            "--env=XDG_SESSION_TYPE=wayland",
            "--env=GSK_RENDERER=cairo",
            "--env=GTK_A11Y=none",
            "--env=LIBGL_ALWAYS_SOFTWARE=1",
            target.as_str(),
        ],
    );
    assert(text::views(out@) =~= app_arguments(app_ref@));
    out
}

/// The failure of an app that could not be started.
pub fn launch_error(app_ref: &str, error: &str) -> (out: SessionError)
    ensures
        out.says(
            FailureReason::LaunchFailed,
            "failed to launch app '"@ + run_target(app_ref@) + "': "@ + error@,
        ),
{
    SessionError::new(
        FailureReason::LaunchFailed,
        cat4("failed to launch app '", flatpak_run_target(app_ref).as_str(), "': ", error),
    )
}

// ---------------------------------------------------------------------------
// What the app leaves behind

/// Pieces without the empty ones.
pub open spec fn full_pieces(pieces: Seq<Seq<u8>>) -> Seq<Seq<u8>>
    decreases pieces.len(),
{
    if pieces.len() == 0 {
        Seq::empty()
    } else if pieces.last().len() == 0 {
        full_pieces(pieces.drop_last())
    } else {
        full_pieces(pieces.drop_last()).push(pieces.last())
    }
}

/// The arguments of a process as the system lists them: each ends with a zero.
pub open spec fn listed_arguments(cmdline: Seq<u8>) -> Seq<Seq<u8>> {
    full_pieces(text::split_on(cmdline, 0u8))
}

/// Whether a command line is that of the keyring which the app's script starts.
pub open spec fn unlocks_keyring(cmdline: Seq<u8>) -> bool {
    let arguments = listed_arguments(cmdline);
    &&& arguments.len() > 0
    &&& text::split_on(arguments[0], 47u8).last() == vstd::utf8::encode_utf8(
        "gnome-keyring-daemon"@,
    )
    &&& arguments.skip(1).contains(vstd::utf8::encode_utf8("--unlock"@))
    &&& arguments.skip(1).contains(vstd::utf8::encode_utf8("--components=secrets"@))
}

fn listed(cmdline: &[u8]) -> (out: Vec<Vec<u8>>)
    ensures
        text::byte_views(out@) == listed_arguments(cmdline@),
{
    let pieces = split_bytes(cmdline, 0);
    let ghost parts = text::byte_views(pieces@);
    let mut out: Vec<Vec<u8>> = Vec::new();
    let mut i: usize = 0;
    assert(parts.take(0) =~= Seq::empty());
    assert(text::byte_views(out@) =~= Seq::empty());
    while i < pieces.len()
        invariant
            i <= pieces@.len(),
            parts == text::byte_views(pieces@),
            text::byte_views(out@) == full_pieces(parts.take(i as int)),
        decreases pieces@.len() - i,
    {
        proof {
            assert(parts.take(i + 1).drop_last() =~= parts.take(i as int));
            assert(parts.take(i + 1).last() == pieces@[i as int]@);
        }
        if pieces[i].len() > 0 {
            let ghost before = out@;
            let piece = vstd::slice::slice_to_vec(pieces[i].as_slice());
            out.push(piece);
            assert(text::byte_views(out@) =~= text::byte_views(before).push(piece@));
        }
        i = i + 1;
    }
    assert(parts.take(parts.len() as int) =~= parts);
    out
}

/// Whether `wanted` is among `list`, from `from` on.
fn has_argument(list: &Vec<Vec<u8>>, from: usize, wanted: &[u8]) -> (found: bool)
    requires
        from <= list@.len(),
    ensures
        found == text::byte_views(list@).skip(from as int).contains(wanted@),
{
    let ghost rest = text::byte_views(list@).skip(from as int);
    let mut i: usize = from;
    while i < list.len()
        invariant
            from <= i <= list@.len(),
            rest == text::byte_views(list@).skip(from as int),
            forall|k: int| 0 <= k < i - from ==> #[trigger] rest[k] != wanted@,
        decreases list@.len() - i,
    {
        assert(rest[i - from] == list@[i as int]@);
        if same_bytes(list[i].as_slice(), wanted) {
            return true;
        }
        i = i + 1;
    }
    false
}

/// Whether a command line is that of the keyring which the app's script starts.
pub fn is_keyring_unlock_cmdline(cmdline: &[u8]) -> (yes: bool)
    ensures
        yes == unlocks_keyring(cmdline@),
{
    let arguments = listed(cmdline);
    if arguments.len() == 0 {
        return false;
    }
    assert(text::byte_views(arguments@)[0] == arguments@[0]@);
    let parts = split_bytes(arguments[0].as_slice(), 47);
    proof {
        text::lemma_split_pieces(arguments@[0]@, 47u8);
        assert(parts@.len() == text::byte_views(parts@).len());
        assert(text::byte_views(parts@).last() == parts@[parts@.len() - 1]@);
    }
    same_bytes(parts[parts.len() - 1].as_slice(), "gnome-keyring-daemon".as_bytes())
        && has_argument(&arguments, 1, "--unlock".as_bytes()) && has_argument(
        &arguments,
        1,
        "--components=secrets".as_bytes(),
    )
}

/// Whether an environment, as the system lists it, sets `key` to exactly `value`.
pub fn environ_contains(environ: &[u8], key: &str, value: &[u8]) -> (yes: bool)
    ensures
        yes == text::split_on(environ@, 0u8).contains(
            vstd::utf8::encode_utf8(key@) + seq![61u8] + value@,
        ),
{
    let mut expected = vstd::slice::slice_to_vec(key.as_bytes());
    expected.push(61);
    crate::apple_dh::append(&mut expected, value);
    assert(expected@ =~= vstd::utf8::encode_utf8(key@) + seq![61u8] + value@);
    let entries = split_bytes(environ, 0);
    assert(text::byte_views(entries@).skip(0) =~= text::byte_views(entries@));
    has_argument(&entries, 0, expected.as_slice())
}

/// Whether a process is the keyring of this run, and may be ended: its command line and its
/// environment both say so. What could not be read says nothing.
pub fn is_own_keyring(cmdline: Option<&[u8]>, environ: Option<&[u8]>, runtime_dir: &[u8]) -> (yes:
    bool)
    ensures
        yes == ((cmdline matches Some(line) && unlocks_keyring(line@)) && (environ matches Some(
            listed,
        ) && text::split_on(listed@, 0u8).contains(
            vstd::utf8::encode_utf8("XDG_RUNTIME_DIR"@) + seq![61u8] + runtime_dir@,
        ))),
{
    match (cmdline, environ) {
        (Some(line), Some(listed)) => is_keyring_unlock_cmdline(line) && environ_contains(
            listed,
            "XDG_RUNTIME_DIR",
            runtime_dir,
        ),
        _ => false,
    }
}

} // verus!
