//! The GNOME session that an app is captured in: what it needs, how it starts, and how the app
//! is started in it.
use crate::result::FailureReason;
use crate::screenshot::app_ref::AppRef;
use crate::screenshot::helper::Ping;
use crate::screenshot::{required_run, CaptureError, ToolRun};
use crate::session::ProcessState;
use crate::text::{
    cat2, join, lines, list_contains, lossy, owned, same, starts_with, strings, trim, utf8,
};
use crate::{screenshot, text};
use vstd::prelude::*;

verus! {

// ---------------------------------------------------------------------------
// What the machine has to offer

/// The tools that a capture needs.
pub open spec fn capture_tools() -> Seq<Seq<char>> {
    seq![
        "gnome-shell"@,
        "python3"@,
        "gsettings"@,
        "flatpak"@,
        "dbus-run-session"@,
        "gnome-keyring-daemon"@,
        "fusermount3"@,
        "tesseract"@,
        "convert"@,
        "identify"@,
        "locale"@,
    ]
}

/// The tools that a capture needs.
pub fn required_capture_tools() -> (out: Vec<String>)
    ensures
        text::views(out@) == capture_tools(),
{
    let out = strings(
        vec![
            "gnome-shell",
            "python3",
            "gsettings",
            "flatpak",
            "dbus-run-session",
            "gnome-keyring-daemon",
            "fusermount3",
            "tesseract",
            "convert",
            "identify",
            "locale",
        ],
    );
    assert(text::views(out@) =~= capture_tools());
    out
}

/// How far the check of the machine has come.
#[derive(Debug)]
pub enum Dependencies {
    /// Look for the tools.
    Tools,
    /// Ask the desktop for its version.
    Version,
    /// Load the bindings that the helper's client needs.
    Bindings { version: String },
    /// List the schemas of settings.
    Schemas { version: String },
    /// List the locales.
    Locales { version: String },
    /// List the languages of text recognition.
    Languages { version: String },
    /// All is there.
    Met { version: String },
    Unmet { message: String },
}

impl Dependencies {
    pub open spec fn lacks(&self, message: Seq<char>) -> bool {
        *self matches Dependencies::Unmet { message: told } && told@ == message
    }
}

/// Whether one of the lines of a listing is `wanted`.
pub open spec fn lists(listing: Seq<char>, wanted: Seq<char>) -> bool {
    text::lines_of(listing).contains(wanted)
}

/// Whether one of the lines of a listing is `wanted`, apart from white space around it.
pub open spec fn lists_loosely(listing: Seq<char>, wanted: Seq<char>) -> bool {
    exists|i: int|
        0 <= i < text::lines_of(listing).len() && text::trimmed(
            #[trigger] text::lines_of(listing)[i],
        ) == wanted
}

fn has_line(listing: &str, wanted: &str) -> (found: bool)
    ensures
        found == lists(listing@, wanted@),
{
    list_contains(&lines(listing), wanted)
}

fn has_trimmed_line(listing: &str, wanted: &str) -> (found: bool)
    ensures
        found == lists_loosely(listing@, wanted@),
{
    let all = lines(listing);
    let ghost written = text::views(all@);
    let mut i: usize = 0;
    while i < all.len()
        invariant
            i <= all@.len(),
            written == text::views(all@),
            written == text::lines_of(listing@),
            forall|k: int| 0 <= k < i ==> text::trimmed(#[trigger] written[k]) != wanted@,
        decreases all@.len() - i,
    {
        assert(written[i as int] == all@[i as int]@);
        if same(trim(all[i].as_str()).as_str(), wanted) {
            return true;
        }
        i = i + 1;
    }
    false
}

/// What is wrong with what the desktop says of its version, if anything is.
pub open spec fn version_fault(stdout: Seq<u8>) -> Option<Seq<char>> {
    let told = text::trimmed(vstd::utf8::decode_utf8(stdout));
    if !vstd::utf8::valid_utf8(stdout) {
        Some(text::utf8_complaint(stdout))
    } else if !text::begins(told, "GNOME Shell 48."@) {
        Some("screenshot backend requires GNOME Shell 48; found "@ + told)
    } else {
        None
    }
}

/// What a failed run of a check's command is told as.
pub open spec fn check_fault(
    run: Result<ToolRun, String>,
    fine: bool,
    otherwise: Seq<char>,
) -> Option<Seq<char>> {
    match run {
        Err(error) => Some(error@),
        Ok(done) => if done.success && fine {
            None
        } else {
            Some(otherwise)
        },
    }
}

/// What a run wrote to its output, as text.
pub open spec fn output_text(run: Result<ToolRun, String>) -> Seq<char> {
    text::utf8_lossy(run->Ok_0.stdout@)
}

fn unmet(message: &str) -> (out: Dependencies)
    ensures
        out.lacks(message@),
{
    Dependencies::Unmet { message: owned(message) }
}

impl Dependencies {
    /// Goes on with the tools that are missing.
    pub fn tools_checked(missing: &Vec<String>) -> (out: Self)
        ensures
            missing@.len() == 0 ==> out is Version,
            missing@.len() > 0 ==> out.lacks(
                "missing screenshot tools: "@ + text::join_seq(text::views(missing@), ", "@),
            ),
    {
        if missing.len() == 0 {
            Dependencies::Version
        } else {
            Dependencies::Unmet {
                message: cat2("missing screenshot tools: ", join(missing, ", ").as_str()),
            }
        }
    }

    /// The next program and its arguments.
    pub fn call(&self) -> (out: Option<(String, Vec<String>)>)
        ensures
            match *self {
                Dependencies::Version => out matches Some((program, args)) && program@
                    == "gnome-shell"@ && text::views(args@) == seq!["--version"@],
                Dependencies::Bindings { .. } => out matches Some((program, args)) && program@
                    == "python3"@ && text::views(args@) == seq![
                    "-c"@,
                    "import gi; gi.require_version('Atspi', '2.0'); from gi.repository import Gio, GLib, Atspi"@,
                ],
                Dependencies::Schemas { .. } => out matches Some((program, args)) && program@
                    == "gsettings"@ && text::views(args@) == seq!["list-schemas"@],
                Dependencies::Locales { .. } => out matches Some((program, args)) && program@
                    == "locale"@ && text::views(args@) == seq!["-a"@],
                Dependencies::Languages { .. } => out matches Some((program, args)) && program@
                    == "tesseract"@ && text::views(args@) == seq!["--list-langs"@],
                _ => out is None,
            },
    {
        match self {
            Dependencies::Version => {
                let args = strings(vec!["--version"]);
                assert(text::views(args@) =~= seq!["--version"@]);
                Some((owned("gnome-shell"), args))
            },
            Dependencies::Bindings { .. } => {
                let args = strings(
                    vec![
                        "-c",
                        "import gi; gi.require_version('Atspi', '2.0'); from gi.repository import Gio, GLib, Atspi",
                    ],
                );
                assert(text::views(args@) =~= seq![
                    "-c"@,
                    "import gi; gi.require_version('Atspi', '2.0'); from gi.repository import Gio, GLib, Atspi"@,
                ]);
                Some((owned("python3"), args))
            },
            Dependencies::Schemas { .. } => {
                let args = strings(vec!["list-schemas"]);
                assert(text::views(args@) =~= seq!["list-schemas"@]);
                Some((owned("gsettings"), args))
            },
            Dependencies::Locales { .. } => {
                let args = strings(vec!["-a"]);
                assert(text::views(args@) =~= seq!["-a"@]);
                Some((owned("locale"), args))
            },
            Dependencies::Languages { .. } => {
                let args = strings(vec!["--list-langs"]);
                assert(text::views(args@) =~= seq!["--list-langs"@]);
                Some((owned("tesseract"), args))
            },
            _ => None,
        }
    }

    /// Goes on after the program.
    pub fn advance(self, run: Result<ToolRun, String>) -> (out: Self)
        ensures
            match self {
                Dependencies::Version => match check_fault(
                    run,
                    true,
                    "could not query GNOME Shell version"@,
                ) {
                    Some(fault) => out.lacks(fault),
                    None => match version_fault(run->Ok_0.stdout@) {
                        Some(fault) => out.lacks(fault),
                        None => out matches Dependencies::Bindings { version } && version@
                            == text::trimmed(vstd::utf8::decode_utf8(run->Ok_0.stdout@)),
                    },
                },
                Dependencies::Bindings { version } => match check_fault(
                    run,
                    true,
                    "Python GObject/Gio and AT-SPI bindings are required"@,
                ) {
                    Some(fault) => out.lacks(fault),
                    None => out == (Dependencies::Schemas { version }),
                },
                Dependencies::Schemas { version } => match check_fault(
                    run,
                    lists(output_text(run), "org.gnome.shell"@) && lists(
                        output_text(run),
                        "org.gnome.desktop.interface"@,
                    ),
                    "GNOME desktop settings schemas are required"@,
                ) {
                    Some(fault) => out.lacks(fault),
                    None => out == (Dependencies::Locales { version }),
                },
                Dependencies::Locales { version } => match check_fault(
                    run,
                    lists(output_text(run), "en_US.utf8"@) || lists(
                        output_text(run),
                        "en_US.UTF-8"@,
                    ),
                    "en_US.UTF-8 locale is required"@,
                ) {
                    Some(fault) => out.lacks(fault),
                    None => out == (Dependencies::Languages { version }),
                },
                Dependencies::Languages { version } => match check_fault(
                    run,
                    lists_loosely(output_text(run), "eng"@),
                    "Tesseract English language data is required"@,
                ) {
                    Some(fault) => out.lacks(fault),
                    None => out == (Dependencies::Met { version }),
                },
                _ => out == self,
            },
    {
        if let Dependencies::Tools = self {
            return self;
        }
        if let Dependencies::Met { .. } = self {
            return self;
        }
        if let Dependencies::Unmet { .. } = self {
            return self;
        }
        let done = match run {
            Ok(done) => done,
            Err(message) => return Dependencies::Unmet { message },
        };
        match self {
            Dependencies::Version => {
                if !done.success {
                    return unmet("could not query GNOME Shell version");
                }
                let told = match utf8(&done.stdout) {
                    Ok(told) => told,
                    Err(message) => return Dependencies::Unmet { message },
                };
                let version = trim(told.as_str());
                if !starts_with(version.as_str(), "GNOME Shell 48.") {
                    return Dependencies::Unmet {
                        message: cat2(
                            "screenshot backend requires GNOME Shell 48; found ",
                            version.as_str(),
                        ),
                    };
                }
                Dependencies::Bindings { version }
            },
            Dependencies::Bindings { version } => {
                if done.success {
                    Dependencies::Schemas { version }
                } else {
                    unmet("Python GObject/Gio and AT-SPI bindings are required")
                }
            },
            Dependencies::Schemas { version } => {
                let listing = lossy(&done.stdout);
                if done.success && has_line(listing.as_str(), "org.gnome.shell") && has_line(
                    listing.as_str(),
                    "org.gnome.desktop.interface",
                ) {
                    Dependencies::Locales { version }
                } else {
                    unmet("GNOME desktop settings schemas are required")
                }
            },
            Dependencies::Locales { version } => {
                let listing = lossy(&done.stdout);
                if done.success && (has_line(listing.as_str(), "en_US.utf8") || has_line(
                    listing.as_str(),
                    "en_US.UTF-8",
                )) {
                    Dependencies::Languages { version }
                } else {
                    unmet("en_US.UTF-8 locale is required")
                }
            },
            Dependencies::Languages { version } => {
                let listing = lossy(&done.stdout);
                if done.success && has_trimmed_line(listing.as_str(), "eng") {
                    Dependencies::Met { version }
                } else {
                    unmet("Tesseract English language data is required")
                }
            },
            other => other,
        }
    }
}

// ---------------------------------------------------------------------------
// Processes

/// What is known of the app.
#[derive(Debug)]
pub enum AppState {
    /// It was not started yet.
    Absent,
    Running,
    /// Its launcher ended, with success or not, as the system tells it. `lives` tells whether an
    /// instance of the app goes on without it.
    Detached { success: bool, status: String, lives: bool },
    /// It could not be looked at.
    Unknown(String),
}

/// What is wrong with the processes of a capture, if anything is: the desktop comes before the
/// app, and the app before the helper. An app whose launcher ended well goes on as long as an
/// instance of it does.
pub open spec fn process_fault(shell: ProcessState, app: AppState, helper: Option<bool>) -> Option<
    (Option<FailureReason>, Seq<char>),
> {
    match shell {
        ProcessState::Unknown(error) => Some((None, error@)),
        ProcessState::Exited(status) => Some(
            (
                Some(FailureReason::DisplayExited),
                "GNOME exited during capture with "@ + status@,
            ),
        ),
        ProcessState::Running => match app {
            AppState::Unknown(error) => Some((None, error@)),
            AppState::Detached { success, status, lives } => if success && lives {
                helper_fault(helper)
            } else {
                Some(
                    (
                        Some(FailureReason::EarlyExit),
                        "app exited during capture with "@ + status@,
                    ),
                )
            },
            _ => helper_fault(helper),
        },
    }
}

/// What is wrong with the helper, if anything is. It counts only once it was there.
pub open spec fn helper_fault(helper: Option<bool>) -> Option<(Option<FailureReason>, Seq<char>)> {
    if helper == Some(false) {
        Some((Some(FailureReason::ScreenshotFailed), "native capture helper disconnected"@))
    } else {
        None
    }
}

/// Whether the processes of a capture are still there. `helper` tells whether the helper is,
/// once it was.
pub fn check_processes(shell: &ProcessState, app: &AppState, helper: Option<bool>) -> (out: Result<
    (),
    CaptureError,
>)
    ensures
        match process_fault(*shell, *app, helper) {
            Some((reason, message)) => out matches Err(error) && error.says(reason, message),
            None => out is Ok,
        },
{
    match shell {
        ProcessState::Unknown(error) => return Err(CaptureError::plain(owned(error.as_str()))),
        ProcessState::Exited(status) => {
            return Err(
                CaptureError::failure(
                    FailureReason::DisplayExited,
                    cat2("GNOME exited during capture with ", status.as_str()),
                ),
            );
        },
        ProcessState::Running => {},
    }
    match app {
        AppState::Unknown(error) => return Err(CaptureError::plain(owned(error.as_str()))),
        AppState::Detached { success, status, lives } => {
            if !(*success && *lives) {
                return Err(
                    CaptureError::failure(
                        FailureReason::EarlyExit,
                        cat2("app exited during capture with ", status.as_str()),
                    ),
                );
            }
        },
        AppState::Absent | AppState::Running => {},
    }
    match helper {
        Some(false) => Err(
            CaptureError::failure(
                FailureReason::ScreenshotFailed,
                owned("native capture helper disconnected"),
            ),
        ),
        _ => Ok(()),
    }
}

/// Whether a listing of running instances names the app.
pub fn names_instance(listing: &str, app_id: &str) -> (yes: bool)
    ensures
        yes == lists_loosely(listing@, app_id@),
{
    has_trimmed_line(listing, app_id)
}

// ---------------------------------------------------------------------------
// The start of the session

/// How far the start of the session has come.
#[derive(Debug)]
pub enum Startup {
    /// Enable the helper.
    Extension,
    /// Enable accessibility.
    Accessibility,
    /// Start the desktop.
    Spawn,
    /// Ask the helper whether it is there.
    Poll { last_error: String },
    /// The helper answered. Look at the processes once more.
    Answered { version: String },
    Ready { version: String },
    Failed { error: CaptureError },
}

impl Startup {
    pub open spec fn fails_with(&self, reason: Option<FailureReason>, message: Seq<char>) -> bool {
        *self matches Startup::Failed { error } && error.says(reason, message)
    }

    /// The arguments of the next command that changes a setting.
    pub fn setting(&self) -> (out: Option<Vec<String>>)
        ensures
            match *self {
                Startup::Extension => out matches Some(args) && text::views(args@) == seq![
                    "set"@,
                    "org.gnome.shell"@,
                    "enabled-extensions"@,
                    "['capture@flatpak-smoke']"@,
                ],
                Startup::Accessibility => out matches Some(args) && text::views(args@) == seq![
                    "set"@,
                    "org.gnome.desktop.interface"@,
                    "toolkit-accessibility"@,
                    "true"@,
                ],
                _ => out is None,
            },
    {
        match self {
            Startup::Extension => {
                let args = strings(
                    vec![
                        "set",
                        "org.gnome.shell",
                        "enabled-extensions",
                        "['capture@flatpak-smoke']",
                    ],
                );
                assert(text::views(args@) =~= seq![
                    "set"@,
                    "org.gnome.shell"@,
                    "enabled-extensions"@,
                    "['capture@flatpak-smoke']"@,
                ]);
                Some(args)
            },
            Startup::Accessibility => {
                let args = strings(
                    vec!["set", "org.gnome.desktop.interface", "toolkit-accessibility", "true"],
                );
                assert(text::views(args@) =~= seq![
                    "set"@,
                    "org.gnome.desktop.interface"@,
                    "toolkit-accessibility"@,
                    "true"@,
                ]);
                Some(args)
            },
            _ => None,
        }
    }

    /// Goes on after a command that changed a setting.
    pub fn set(self, run: Result<ToolRun, String>) -> (out: Self)
        ensures
            match self {
                Startup::Extension => match screenshot::run_fault(
                    run,
                    "setting GNOME capture extension"@,
                ) {
                    Some(fault) => out.fails_with(None, fault),
                    None => out is Accessibility,
                },
                Startup::Accessibility => match check_fault(
                    run,
                    true,
                    "enabling session accessibility"@,
                ) {
                    Some(fault) => out.fails_with(None, fault),
                    None => out is Spawn,
                },
                _ => out == self,
            },
    {
        match self {
            Startup::Extension => match required_run(run, "setting GNOME capture extension") {
                Ok(_) => Startup::Accessibility,
                Err(error) => Startup::Failed { error },
            },
            Startup::Accessibility => match run {
                Err(message) => Startup::Failed { error: CaptureError::plain(message) },
                Ok(done) => if done.success {
                    Startup::Spawn
                } else {
                    Startup::Failed {
                        error: CaptureError::plain(owned("enabling session accessibility")),
                    }
                },
            },
            other => other,
        }
    }

    /// Goes on once the desktop was started.
    pub fn spawned(self, result: Result<(), String>) -> (out: Self)
        ensures
            self is Spawn ==> match result {
                Ok(_) => out matches Startup::Poll { last_error } && last_error@.len() == 0,
                Err(message) => out.fails_with(
                    None,
                    "starting GNOME screenshot session"@ + ": "@ + message@,
                ),
            },
            !(self is Spawn) ==> out == self,
    {
        match self {
            Startup::Spawn => match result {
                Ok(()) => Startup::Poll { last_error: String::new() },
                Err(message) => Startup::Failed {
                    error: CaptureError::plain(message).context(
                        "starting GNOME screenshot session",
                    ),
                },
            },
            other => other,
        }
    }

    /// Goes on after a look at the helper: `ping` is `None` where the session's bus is not known
    /// yet, and `processes` is what the processes looked like before.
    pub fn polled(self, processes: Result<(), CaptureError>, ping: Option<Ping>) -> (out: Self)
        ensures
            self matches Startup::Poll { last_error } ==> match processes {
                Err(error) => out == (Startup::Failed { error }),
                Ok(_) => match ping {
                    None => out == self,
                    Some(Ping::Ready { version }) => out == (Startup::Answered { version }),
                    Some(Ping::Refused { message }) => out.fails_with(None, message@),
                    Some(Ping::Retry { error }) => out matches Startup::Poll { last_error: told }
                        && told == error.brief,
                },
            },
            !(self is Poll) ==> out == self,
    {
        match self {
            Startup::Poll { last_error } => {
                match processes {
                    Err(error) => return Startup::Failed { error },
                    Ok(()) => {},
                }
                match ping {
                    None => Startup::Poll { last_error },
                    Some(Ping::Ready { version }) => Startup::Answered { version },
                    Some(Ping::Refused { message }) => Startup::Failed {
                        error: CaptureError::plain(message),
                    },
                    Some(Ping::Retry { error }) => Startup::Poll { last_error: error.brief },
                }
            },
            other => other,
        }
    }

    /// Goes on after the last look at the processes, with the helper among them.
    pub fn confirmed(self, processes: Result<(), CaptureError>) -> (out: Self)
        ensures
            self matches Startup::Answered { version } ==> match processes {
                Ok(_) => out == (Startup::Ready { version }),
                Err(error) => out == (Startup::Failed { error }),
            },
            !(self is Answered) ==> out == self,
    {
        match self {
            Startup::Answered { version } => match processes {
                Ok(()) => Startup::Ready { version },
                Err(error) => Startup::Failed { error },
            },
            other => other,
        }
    }

    /// Goes on after a wait. `processes` is what the processes look like where the wait was cut
    /// short.
    pub fn slept(self, result: Result<(), String>, processes: Result<(), CaptureError>) -> (out:
        Self)
        ensures
            self matches Startup::Poll { last_error } ==> match result {
                Ok(_) => out == self,
                Err(_) => match processes {
                    Err(error) => out == (Startup::Failed { error }),
                    Ok(_) => out.fails_with(
                        Some(FailureReason::DisplayStartFailed),
                        "GNOME helper did not become ready: "@ + last_error@,
                    ),
                },
            },
            !(self is Poll) ==> out == self,
    {
        match self {
            Startup::Poll { last_error } => match result {
                Ok(()) => Startup::Poll { last_error },
                Err(_) => match processes {
                    Err(error) => Startup::Failed { error },
                    Ok(()) => Startup::Failed {
                        error: CaptureError::failure(
                            FailureReason::DisplayStartFailed,
                            cat2("GNOME helper did not become ready: ", last_error.as_str()),
                        ),
                    },
                },
            },
            other => other,
        }
    }
}

/// The command that starts the desktop and tells the address of its bus.
pub open spec fn session_script() -> Seq<char> {
    "printf %s \"$DBUS_SESSION_BUS_ADDRESS\" > \"$1\"; exec gnome-shell --headless --wayland --virtual-monitor=1280x900 --no-x11"@
}

/// The arguments that start the desktop, before the file for the address of its bus.
pub fn session_args() -> (out: Vec<String>)
    ensures
        text::views(out@) == seq!["--"@, "sh"@, "-c"@, session_script(), "capture-session"@],
{
    let out = strings(
        vec![
            "--",
            "sh",
            "-c",
            "printf %s \"$DBUS_SESSION_BUS_ADDRESS\" > \"$1\"; exec gnome-shell --headless --wayland --virtual-monitor=1280x900 --no-x11",
            "capture-session",
        ],
    );
    assert(text::views(out@) =~= seq![
        "--"@,
        "sh"@,
        "-c"@,
        session_script(),
        "capture-session"@,
    ]);
    out
}

// ---------------------------------------------------------------------------
// The start of the app

/// The arguments of the keyring, before the directory of its control socket.
pub fn keyring_args() -> (out: Vec<String>)
    ensures
        text::views(out@) == seq![
            "--foreground"@,
            "--components=secrets"@,
            "--control-directory"@,
        ],
{
    let out = strings(vec!["--foreground", "--components=secrets", "--control-directory"]);
    assert(text::views(out@) =~= seq![
        "--foreground"@,
        "--components=secrets"@,
        "--control-directory"@,
    ]);
    out
}

/// The arguments that unlock the keyring.
pub fn unlock_args() -> (out: Vec<String>)
    ensures
        text::views(out@) == seq![
            "-c"@,
            "printf '\\n' | gnome-keyring-daemon --unlock --components=secrets --control-directory \"$XDG_RUNTIME_DIR/keyring\""@,
        ],
{
    let out = strings(
        vec![
            "-c",
            "printf '\\n' | gnome-keyring-daemon --unlock --components=secrets --control-directory \"$XDG_RUNTIME_DIR/keyring\"",
        ],
    );
    assert(text::views(out@) =~= seq![
        "-c"@,
        "printf '\\n' | gnome-keyring-daemon --unlock --components=secrets --control-directory \"$XDG_RUNTIME_DIR/keyring\""@,
    ]);
    out
}

/// Whether the keyring is unlocked, from the run of the command.
pub fn unlocked(run: Result<ToolRun, String>) -> (out: Result<(), CaptureError>)
    ensures
        match screenshot::run_fault(run, "unlocking session keyring"@) {
            Some(fault) => out matches Err(error) && error.says(None, fault),
            None => out is Ok,
        },
{
    match required_run(run, "unlocking session keyring") {
        Ok(_) => Ok(()),
        Err(error) => Err(error),
    }
}

/// The arguments that start the app, with its own arguments behind its id.
pub open spec fn app_arguments(app_ref: AppRef, args: Seq<Seq<char>>) -> Seq<Seq<char>> {
    seq![
        "run"@,
        "--user"@,
        "--arch="@ + app_ref.arch@,
        "--branch="@ + app_ref.branch@,
        "--env=GDK_BACKEND=wayland"@,
        "--env=QT_QPA_PLATFORM=wayland"@,
        "--env=SDL_VIDEODRIVER=wayland"@,
        "--env=MOZ_ENABLE_WAYLAND=1"@,
        "--env=GTK_A11Y=atspi"@,
        "--env=QT_LINUX_ACCESSIBILITY_ALWAYS_ON=1"@,
        app_ref.id@,
    ] + args
}

/// The arguments that start the app, with its own arguments behind its id.
pub fn launch(app_ref: &AppRef, args: &Vec<String>) -> (out: Vec<String>)
    ensures
        text::views(out@) == app_arguments(*app_ref, text::views(args@)),
{
    let arch = cat2("--arch=", app_ref.arch());
    let branch = cat2("--branch=", app_ref.branch());
    let mut out = strings(
        vec![
            "run",
            "--user",
            arch.as_str(),
            branch.as_str(),
            "--env=GDK_BACKEND=wayland",
            "--env=QT_QPA_PLATFORM=wayland",
            "--env=SDL_VIDEODRIVER=wayland",
            "--env=MOZ_ENABLE_WAYLAND=1",
            "--env=GTK_A11Y=atspi",
            "--env=QT_LINUX_ACCESSIBILITY_ALWAYS_ON=1",
            app_ref.id(),
        ],
    );
    let ghost front = app_arguments(*app_ref, Seq::empty());
    let ghost own = text::views(args@);
    assert(text::views(out@) =~= front + own.take(0));
    let mut i: usize = 0;
    while i < args.len()
        invariant
            i <= args@.len(),
            own == text::views(args@),
            text::views(out@) == front + own.take(i as int),
        decreases args@.len() - i,
    {
        let arg = owned(args[i].as_str());
        proof {
            text::lemma_views_push(out@, arg);
            assert(own.take(i + 1) =~= own.take(i as int).push(arg@));
            assert(front + own.take(i + 1) =~= (front + own.take(i as int)).push(arg@));
        }
        out.push(arg);
        i = i + 1;
    }
    assert(own.take(own.len() as int) =~= own);
    assert(front + own =~= app_arguments(*app_ref, own));
    out
}

/// Each of the app's own arguments reaches it as one argument, in order, behind its id.
pub proof fn arguments_stay_apart(app_ref: AppRef, args: Seq<Seq<char>>, i: int)
    requires
        0 <= i < args.len(),
    ensures
        ({
            let all = app_arguments(app_ref, args);
            &&& all.len() == app_arguments(app_ref, Seq::empty()).len() + args.len()
            &&& all[all.len() - args.len() - 1] == app_ref.id@
            &&& all[all.len() - args.len() + i] == args[i]
        }),
{
}

} // verus!
