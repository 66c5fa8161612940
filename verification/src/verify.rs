//! A smoke test of one build, from its checks to its result.
use crate::cli::{VerifyBundleArgs, VerifyCommonArgs, VerifyRepoArgs};
use crate::installer::{infer_single_installed_app_ref, InstallError, Installation, Progress};
use crate::output::{is_single_component, join_path};
use crate::result::{Artifact, ArtifactKind, FailureReason, RunResult, RunStatus, Timings};
use crate::session::{SessionError, SessionSuccess};
use crate::text::{blank, cat2, ends_with, owned, same, starts_with};
use crate::time::Duration;
use crate::tools::{check_path, ensure_required_tools};
use crate::{installer, output, text, tools};
use vstd::prelude::*;

verus! {

// ---------------------------------------------------------------------------
// Arguments

/// What is wrong with the name of a screenshot, if anything is.
pub open spec fn screenshot_name_fault(name: Seq<char>) -> Option<Seq<char>> {
    if text::trimmed(name).len() == 0 {
        Some("--screenshot-name cannot be empty"@)
    } else if output::component_count(name) != 1 {
        Some("--screenshot-name must be a filename, not a path"@)
    } else if text::begins(name, "-"@) {
        Some("--screenshot-name cannot start with '-'"@)
    } else if !text::ends(name, ".png"@) {
        Some("--screenshot-name must end with .png"@)
    } else {
        None
    }
}

pub fn validate_screenshot_name(name: &str) -> (out: Result<(), String>)
    ensures
        match screenshot_name_fault(name@) {
            Some(fault) => out matches Err(message) && message@ == fault,
            None => out is Ok,
        },
{
    if blank(name) {
        return Err(owned("--screenshot-name cannot be empty"));
    }
    if !is_single_component(name) {
        return Err(owned("--screenshot-name must be a filename, not a path"));
    }
    if starts_with(name, "-") {
        return Err(owned("--screenshot-name cannot start with '-'"));
    }
    if !ends_with(name, ".png") {
        return Err(owned("--screenshot-name must end with .png"));
    }
    Ok(())
}

/// What is wrong with the ref of an app, if anything is.
pub open spec fn app_ref_fault(app_ref: Seq<char>) -> Option<Seq<char>> {
    if text::trimmed(app_ref).len() == 0 {
        Some("app ref cannot be empty"@)
    } else if text::begins(app_ref, "-"@) {
        Some("app ref cannot start with '-'"@)
    } else {
        None
    }
}

pub fn validate_app_ref(app_ref: &str) -> (out: Result<(), String>)
    ensures
        match app_ref_fault(app_ref@) {
            Some(fault) => out matches Err(message) && message@ == fault,
            None => out is Ok,
        },
{
    if blank(app_ref) {
        return Err(owned("app ref cannot be empty"));
    }
    if starts_with(app_ref, "-") {
        return Err(owned("app ref cannot start with '-'"));
    }
    Ok(())
}

/// A name of a screenshot that is accepted leads below the directory of screenshots: it is
/// relative and has no slash before something that it names.
pub proof fn accepted_names_stay_in_the_directory(name: Seq<char>)
    requires
        screenshot_name_fault(name) is None,
    ensures
        !text::begins(name, "/"@),
        output::path_parts(name).len() == 1,
{
    reveal_strlit("/");
    reveal_strlit(".png");
    reveal_strlit(".");
    if text::begins(name, "/"@) {
        assert(name.take(1)[0] == '/');
        let pieces = text::split_on(name, '/');
        lemma_suffix_is_named(name);
    }
}

/// A path that ends in a name has at least one named part.
proof fn lemma_suffix_is_named(path: Seq<char>)
    requires
        text::ends(path, ".png"@),
    ensures
        output::path_parts(path).len() >= 1,
{
    reveal_strlit(".png");
    reveal_strlit(".");
    let pieces = text::split_on(path, '/');
    assert(path.skip(path.len() - 4) =~= ".png"@);
    assert(path[path.len() - 1] == path.skip(path.len() - 4)[3]);
    let shorter = path.drop_last();
    assert(shorter[shorter.len() - 1] == path.skip(path.len() - 4)[2]);
    text::lemma_split_pieces(shorter, '/');
    text::lemma_split_pieces(shorter.drop_last(), '/');
    let last = pieces.last();
    assert(last == text::split_on(shorter, '/').last().push('g'));
    assert(last != "."@) by {
        assert(last[last.len() - 1] == 'g');
        assert("."@[0] == '.');
    }
    assert(last.len() > 0);
}

// ---------------------------------------------------------------------------
// The environment of a run

/// The variables that keep the app's files within the workspace, and the directories there.
pub open spec fn isolated_dirs() -> Seq<(Seq<char>, Seq<char>)> {
    seq![
        ("XDG_DATA_HOME"@, "data"@),
        ("XDG_CACHE_HOME"@, "cache"@),
        ("XDG_CONFIG_HOME"@, "config"@),
        ("XDG_STATE_HOME"@, "state"@),
        ("XDG_RUNTIME_DIR"@, "runtime"@),
    ]
}

/// A variable and its value.
#[derive(Debug, Clone)]
pub struct Variable {
    pub name: String,
    pub value: String,
}

impl Variable {
    pub open spec fn is(&self, name: Seq<char>, value: Seq<char>) -> bool {
        self.name@ == name && self.value@ == value
    }

    pub fn new(name: &str, value: &str) -> (out: Self)
        ensures
            out.is(name@, value@),
    {
        Variable { name: owned(name), value: owned(value) }
    }

    /// The variable that names a directory of the workspace.
    pub fn below(name: &str, workspace: &str, directory: &str) -> (out: Self)
        ensures
            out.is(name@, output::joined(workspace@, directory@)),
    {
        Variable { name: owned(name), value: join_path(workspace, directory) }
    }
}

/// The variables that keep the app's files within the workspace.
pub fn isolated_flatpak_env(workspace: &str) -> (out: Vec<Variable>)
    ensures
        out@.len() == isolated_dirs().len(),
        forall|i: int|
            0 <= i < out@.len() ==> (#[trigger] out@[i]).is(
                isolated_dirs()[i].0,
                output::joined(workspace@, isolated_dirs()[i].1),
            ),
{
    vec![
        Variable::below("XDG_DATA_HOME", workspace, "data"),
        Variable::below("XDG_CACHE_HOME", workspace, "cache"),
        Variable::below("XDG_CONFIG_HOME", workspace, "config"),
        Variable::below("XDG_STATE_HOME", workspace, "state"),
        Variable::below("XDG_RUNTIME_DIR", workspace, "runtime"),
    ]
}

/// The variables of what runs on the display: its name first, so that the run's own variables
/// count where they set the same.
pub fn display_env(display: &str, env: &Vec<Variable>) -> (out: Vec<Variable>)
    ensures
        out@.len() == env@.len() + 2,
        out@[0].is("WAYLAND_DISPLAY"@, display@),
        out@[1].is("XDG_SESSION_TYPE"@, "wayland"@),
        forall|i: int|
            0 <= i < env@.len() ==> (#[trigger] out@[i + 2]).is(env@[i].name@, env@[i].value@),
{
    let mut out: Vec<Variable> = vec![
        Variable::new("WAYLAND_DISPLAY", display),
        Variable::new("XDG_SESSION_TYPE", "wayland"),
    ];
    let mut i: usize = 0;
    while i < env.len()
        invariant
            i <= env@.len(),
            out@.len() == i + 2,
            out@[0].is("WAYLAND_DISPLAY"@, display@),
            out@[1].is("XDG_SESSION_TYPE"@, "wayland"@),
            forall|k: int| 0 <= k < i ==> (#[trigger] out@[k + 2]).is(env@[k].name@, env@[k].value@),
        decreases env@.len() - i,
    {
        let variable = Variable::new(env[i].name.as_str(), env[i].value.as_str());
        let ghost before = out@;
        out.push(variable);
        assert forall|k: int| 0 <= k < i + 1 implies (#[trigger] out@[k + 2]).is(
            env@[k].name@,
            env@[k].value@,
        ) by {
            if k < i {
                assert(out@[k + 2] == before[k + 2]);
            }
        }
        i = i + 1;
    }
    out
}

/// The value of the first variable of a name.
pub open spec fn value_of(env: Seq<Variable>, name: Seq<char>) -> Option<Seq<char>>
    decreases env.len(),
{
    if env.len() == 0 {
        None
    } else if env[0].name@ == name {
        Some(env[0].value@)
    } else {
        value_of(env.skip(1), name)
    }
}

/// The value of the first variable of a name.
pub fn env_value(env: &Vec<Variable>, name: &str) -> (out: Option<String>)
    ensures
        text::option_view(out) == value_of(env@, name@),
{
    let mut i: usize = 0;
    assert(env@.skip(0) =~= env@);
    while i < env.len()
        invariant
            i <= env@.len(),
            value_of(env@, name@) == value_of(env@.skip(i as int), name@),
        decreases env@.len() - i,
    {
        assert(env@.skip(i as int)[0] == env@[i as int]);
        assert(env@.skip(i as int).skip(1) =~= env@.skip(i + 1));
        if same(env[i].name.as_str(), name) {
            return Some(owned(env[i].value.as_str()));
        }
        i = i + 1;
    }
    None
}

/// The settings of the display.
pub open spec fn weston_settings() -> Seq<char> {
    "[core]\nidle-time=0\nrenderer=pixman\n\n[shell]\nlocking=false\npanel-position=none\nbackground-color=0xff202020\n"@
}

/// The settings of the display.
pub fn weston_config() -> (out: &'static str)
    ensures
        out@ == weston_settings(),
{
    "[core]\nidle-time=0\nrenderer=pixman\n\n[shell]\nlocking=false\npanel-position=none\nbackground-color=0xff202020\n"
}

/// The settings of the desktop portal: the GTK backend, and GNOME Keyring for secrets.
pub open spec fn portal_settings() -> Seq<char> {
    "[preferred]\ndefault=gtk\norg.freedesktop.impl.portal.Secret=gnome-keyring\n"@
}

/// The settings of the desktop portal.
pub fn portal_config() -> (out: &'static str)
    ensures
        out@ == portal_settings(),
{
    "[preferred]\ndefault=gtk\norg.freedesktop.impl.portal.Secret=gnome-keyring\n"
}

// ---------------------------------------------------------------------------
// The course of a verification

/// How far a verification has come.
#[derive(Debug)]
pub enum Verification {
    /// Look for what the run needs.
    Tools { artifact: Artifact },
    /// Install the build.
    Install { artifact: Artifact },
    /// Look whether there is time left to launch the app.
    Budget { artifact: Artifact, app_ref: String, install_ms: u128 },
    /// Run the session.
    Session { artifact: Artifact, app_ref: String, install_ms: u128 },
    /// Write the result, and fail with the complaint where there is one.
    Done { result: RunResult, complaint: Option<String> },
}

/// What happened in a verification.
#[derive(Debug)]
pub enum VerifyEvent {
    /// This is missing on the machine.
    Tools { missing: Vec<String> },
    /// The installation ended, after this many milliseconds.
    Installed { installation: Installation, took_ms: u128 },
    /// This much of the run's time has passed.
    Elapsed { elapsed: Duration, overall_timeout: Duration },
    /// The session ended.
    Session { result: Result<SessionSuccess, SessionError> },
}

/// Whether an event is what a verification waits for.
pub open spec fn expected(verification: Verification, event: VerifyEvent) -> bool {
    match verification {
        Verification::Tools { .. } => event is Tools,
        Verification::Install { .. } => event matches VerifyEvent::Installed { installation, .. } && (
        installation@ is Listed || installation@ is Installed || installation@ is Failed),
        Verification::Budget { .. } => event is Elapsed,
        Verification::Session { .. } => event is Session,
        Verification::Done { .. } => false,
    }
}

/// What a failed verification leaves behind.
pub open spec fn ends_failed(
    out: Verification,
    artifact: Artifact,
    app_ref: Option<Seq<char>>,
    install: Option<u128>,
    total: u128,
    screenshots: Seq<Seq<char>>,
    reason: FailureReason,
    message: Seq<char>,
) -> bool {
    out matches Verification::Done { result, complaint } && {
        &&& result.wf()
        &&& result.status == RunStatus::Failed
        &&& text::option_view(result.app_ref) == app_ref
        &&& result.artifact == artifact
        &&& result.timings_ms == (Timings { install, launch_to_window: None, total })
        &&& text::views(result.screenshots@) == screenshots
        &&& (result.failure matches Some(failure) && failure.reason == reason && failure.message@
            == message)
        &&& (complaint matches Some(told) && told@ == "verification failed: "@ + message)
    }
}

/// What a passed verification leaves behind.
pub open spec fn ends_passed(
    out: Verification,
    artifact: Artifact,
    app_ref: Seq<char>,
    install: u128,
    launch_to_window: u128,
    total: u128,
    screenshots: Seq<Seq<char>>,
) -> bool {
    out matches Verification::Done { result, complaint } && {
        &&& result.wf()
        &&& result.status == RunStatus::Passed
        &&& text::option_view(result.app_ref) == Some(app_ref)
        &&& result.artifact == artifact
        &&& result.timings_ms == (Timings {
            install: Some(install),
            launch_to_window: Some(launch_to_window),
            total,
        })
        &&& text::views(result.screenshots@) == screenshots
        &&& complaint is None
    }
}

/// The ref of an app that was installed, or the ref that is known and the failure.
pub open spec fn installed_app(progress: Progress) -> Result<
    Seq<char>,
    (Option<Seq<char>>, FailureReason, Seq<char>),
> {
    match progress {
        Progress::Installed { app_ref } => Ok(app_ref),
        Progress::Listed { refs } => match installer::inferred_ref(refs) {
            Ok(app_ref) => Ok(app_ref),
            Err(message) => Err((None, FailureReason::InternalError, message)),
        },
        Progress::Failed { app_ref, reason, message } => Err((app_ref, reason, message)),
        _ => Err((None, FailureReason::InternalError, "installation did not finish"@)),
    }
}

/// The ref of an app that was installed, or the ref that is known and the failure.
pub fn finish_installation(installation: Installation) -> (out: Result<
    String,
    (Option<String>, InstallError),
>)
    ensures
        match installed_app(installation@) {
            Ok(app_ref) => out matches Ok(found) && found@ == app_ref,
            Err((app_ref, reason, message)) => out matches Err((known, error)) && text::option_view(
                known,
            ) == app_ref && error.says(reason, message),
        },
{
    match installation {
        Installation::Installed { app_ref } => Ok(app_ref),
        Installation::Listed { refs } => match infer_single_installed_app_ref(&refs) {
            Ok(app_ref) => Ok(app_ref),
            Err(message) => Err((None, InstallError::new(FailureReason::InternalError, message))),
        },
        Installation::Failed { app_ref, error } => Err((app_ref, error)),
        _ => Err(
            (
                None,
                InstallError::new(
                    FailureReason::InternalError,
                    owned("installation did not finish"),
                ),
            ),
        ),
    }
}

/// How a verification goes on after an event, `total` milliseconds after it began.
pub open spec fn verify_step(
    verification: Verification,
    event: VerifyEvent,
    total: u128,
    out: Verification,
) -> bool {
    match (verification, event) {
        (Verification::Tools { artifact }, VerifyEvent::Tools { missing }) => if missing@.len()
            == 0 {
            out == (Verification::Install { artifact })
        } else {
            ends_failed(
                out,
                artifact,
                None,
                None,
                total,
                Seq::empty(),
                FailureReason::InternalError,
                tools::missing_message(text::views(missing@)),
            )
        },
        (
            Verification::Install { artifact },
            VerifyEvent::Installed { installation, took_ms },
        ) => match installed_app(installation@) {
            Ok(expected_ref) => out matches Verification::Budget {
                artifact: kept,
                app_ref,
                install_ms,
            } && kept == artifact && app_ref@ == expected_ref && install_ms == took_ms,
            Err((app_ref, reason, message)) => ends_failed(
                out,
                artifact,
                app_ref,
                Some(took_ms),
                total,
                Seq::empty(),
                reason,
                message,
            ),
        },
        (
            Verification::Budget { artifact, app_ref, install_ms },
            VerifyEvent::Elapsed { elapsed, overall_timeout },
        ) => if elapsed@ < overall_timeout@ {
            out == (Verification::Session { artifact, app_ref, install_ms })
        } else {
            ends_failed(
                out,
                artifact,
                Some(app_ref@),
                Some(install_ms),
                total,
                Seq::empty(),
                FailureReason::InternalError,
                "overall timeout elapsed before app launch"@,
            )
        },
        (
            Verification::Session { artifact, app_ref, install_ms },
            VerifyEvent::Session { result },
        ) => match result {
            Ok(success) => ends_passed(
                out,
                artifact,
                app_ref@,
                install_ms,
                success.launch_to_window_ms,
                total,
                text::views(success.screenshot_paths@),
            ),
            Err(error) => ends_failed(
                out,
                artifact,
                Some(app_ref@),
                Some(install_ms),
                total,
                text::views(error.screenshots@),
                error.reason,
                error.message@,
            ),
        },
        _ => true,
    }
}

fn failed(
    artifact: Artifact,
    app_ref: Option<String>,
    install: Option<u128>,
    total: u128,
    screenshots: Vec<String>,
    reason: FailureReason,
    message: String,
) -> (out: Verification)
    ensures
        ends_failed(
            out,
            artifact,
            text::option_view(app_ref),
            install,
            total,
            text::views(screenshots@),
            reason,
            message@,
        ),
{
    let complaint = cat2("verification failed: ", message.as_str());
    Verification::Done {
        result: RunResult::failed(
            app_ref,
            artifact,
            Timings { install, launch_to_window: None, total },
            screenshots,
            reason,
            message,
        ),
        complaint: Some(complaint),
    }
}

impl Verification {
    /// A verification that ended tells of a failure exactly when its result does.
    pub open spec fn wf(&self) -> bool {
        *self matches Verification::Done { result, complaint } ==> result.wf() && (complaint is None)
            == (result.status == RunStatus::Passed)
    }

    pub fn new(artifact: Artifact) -> (out: Self)
        ensures
            out == (Verification::Tools { artifact }),
            out.wf(),
    {
        Verification::Tools { artifact }
    }

    /// Goes on after an event, `total` milliseconds after the verification began.
    pub fn advance(self, event: VerifyEvent, total: u128) -> (out: Self)
        requires
            expected(self, event),
        ensures
            out.wf(),
            verify_step(self, event, total, out),
    {
        match (self, event) {
            (Verification::Tools { artifact }, VerifyEvent::Tools { missing }) => {
                match ensure_required_tools(&missing) {
                    Ok(()) => Verification::Install { artifact },
                    Err(message) => {
                        let none: Vec<String> = Vec::new();
                        assert(text::views(none@) =~= Seq::empty());
                        failed(
                            artifact,
                            None,
                            None,
                            total,
                            none,
                            FailureReason::InternalError,
                            message,
                        )
                    },
                }
            },
            (
                Verification::Install { artifact },
                VerifyEvent::Installed { installation, took_ms },
            ) => match finish_installation(installation) {
                Ok(app_ref) => Verification::Budget { artifact, app_ref, install_ms: took_ms },
                Err((app_ref, error)) => {
                    let none: Vec<String> = Vec::new();
                    assert(text::views(none@) =~= Seq::empty());
                    failed(
                        artifact,
                        app_ref,
                        Some(took_ms),
                        total,
                        none,
                        error.reason,
                        error.message,
                    )
                },
            },
            (
                Verification::Budget { artifact, app_ref, install_ms },
                VerifyEvent::Elapsed { elapsed, overall_timeout },
            ) => {
                if elapsed.nanos < overall_timeout.nanos {
                    Verification::Session { artifact, app_ref, install_ms }
                } else {
                    let none: Vec<String> = Vec::new();
                    assert(text::views(none@) =~= Seq::empty());
                    failed(
                        artifact,
                        Some(app_ref),
                        Some(install_ms),
                        total,
                        none,
                        FailureReason::InternalError,
                        owned("overall timeout elapsed before app launch"),
                    )
                }
            },
            (
                Verification::Session { artifact, app_ref, install_ms },
                VerifyEvent::Session { result },
            ) => match result {
                Ok(success) => Verification::Done {
                    result: RunResult::passed(
                        app_ref,
                        artifact,
                        Timings {
                            install: Some(install_ms),
                            launch_to_window: Some(success.launch_to_window_ms),
                            total,
                        },
                        success.screenshot_paths,
                    ),
                    complaint: None,
                },
                Err(error) => failed(
                    artifact,
                    Some(app_ref),
                    Some(install_ms),
                    total,
                    error.screenshots,
                    error.reason,
                    error.message,
                ),
            },
            (verification, _) => verification,
        }
    }
}

/// A verification that begins, and the installation of its build.
#[derive(Debug)]
pub struct Beginning {
    pub common: VerifyCommonArgs,
    pub verification: Verification,
    pub installation: Installation,
}

impl Beginning {
    /// The verification of a build of some kind at `path`, which is installed as `progress` says.
    pub open spec fn begins(
        &self,
        common: VerifyCommonArgs,
        kind: ArtifactKind,
        path: Seq<char>,
        progress: Progress,
    ) -> bool {
        &&& self.common == common
        &&& (self.verification matches Verification::Tools { artifact } && artifact.kind == kind
            && artifact.path@ == path)
        &&& self.installation@ == progress
    }
}

/// Begins the verification of a bundle. `exists` tells whether there is a file at its path.
pub fn verify_bundle(args: VerifyBundleArgs, exists: bool) -> (out: Result<Beginning, String>)
    ensures
        !exists ==> (out matches Err(message) && message@ == "bundle"@ + " '"@ + args.bundle@
            + "' does not exist"@),
        exists ==> match screenshot_name_fault(args.common.screenshot_name@) {
            Some(fault) => out matches Err(message) && message@ == fault,
            None => out matches Ok(begun) && begun.begins(
                args.common,
                ArtifactKind::Bundle,
                args.bundle@,
                installer::first_step(None, args.common.allow_network_remotes),
            ),
        },
{
    match check_path(args.bundle.as_str(), "bundle", exists) {
        Err(message) => return Err(message),
        Ok(()) => {},
    }
    match validate_screenshot_name(args.common.screenshot_name.as_str()) {
        Err(message) => Err(message),
        Ok(()) => Ok(
            Beginning {
                verification: Verification::new(Artifact::bundle(args.bundle.as_str())),
                installation: Installation::bundle(args.common.allow_network_remotes),
                common: args.common,
            },
        ),
    }
}

/// Begins the verification of a ref of a repository. `exists` tells whether there is something at
/// the repository's path.
pub fn verify_repo(args: VerifyRepoArgs, exists: bool) -> (out: Result<Beginning, String>)
    ensures
        !exists ==> (out matches Err(message) && message@ == "repo"@ + " '"@ + args.repo@
            + "' does not exist"@),
        exists ==> match app_ref_fault(args.app_ref@) {
            Some(fault) => out matches Err(message) && message@ == fault,
            None => match screenshot_name_fault(args.common.screenshot_name@) {
                Some(fault) => out matches Err(message) && message@ == fault,
                None => out matches Ok(begun) && begun.begins(
                    args.common,
                    ArtifactKind::Repo,
                    args.repo@,
                    installer::first_step(Some(args.app_ref@), args.common.allow_network_remotes),
                ),
            },
        },
{
    match check_path(args.repo.as_str(), "repo", exists) {
        Err(message) => return Err(message),
        Ok(()) => {},
    }
    match validate_app_ref(args.app_ref.as_str()) {
        Err(message) => return Err(message),
        Ok(()) => {},
    }
    match validate_screenshot_name(args.common.screenshot_name.as_str()) {
        Err(message) => Err(message),
        Ok(()) => Ok(
            Beginning {
                verification: Verification::new(Artifact::repo(args.repo.as_str())),
                installation: Installation::repo(
                    args.app_ref.as_str(),
                    args.common.allow_network_remotes,
                ),
                common: args.common,
            },
        ),
    }
}

/// Whether a verification ended well.
pub open spec fn passes(verification: Verification) -> bool {
    verification matches Verification::Done { result, .. } && result.status == RunStatus::Passed
}

/// How a verification goes on after an event, where it did not end before.
pub open spec fn follows(
    before: Verification,
    event: VerifyEvent,
    total: u128,
    after: Verification,
) -> bool {
    if before is Done {
        after == before
    } else {
        verify_step(before, event, total, after)
    }
}

/// A verification ends, and it passes exactly when nothing is missing, one app was installed, there
/// was time left, and the session succeeded. `states` are those after each of the four events.
pub proof fn verifications_pass_when_all_goes_well(
    artifact: Artifact,
    missing: Vec<String>,
    installation: Installation,
    took_ms: u128,
    elapsed: Duration,
    overall_timeout: Duration,
    session: Result<SessionSuccess, SessionError>,
    totals: (u128, u128, u128, u128),
    states: (Verification, Verification, Verification, Verification),
)
    requires
        follows(
            (Verification::Tools { artifact }),
            (VerifyEvent::Tools { missing }),
            totals.0,
            states.0,
        ),
        follows(
            states.0,
            (VerifyEvent::Installed { installation, took_ms }),
            totals.1,
            states.1,
        ),
        follows(
            states.1,
            (VerifyEvent::Elapsed { elapsed, overall_timeout }),
            totals.2,
            states.2,
        ),
        follows(states.2, (VerifyEvent::Session { result: session }), totals.3, states.3),
    ensures
        states.3 is Done,
        passes(states.3) <==> missing@.len() == 0 && installed_app(installation@) is Ok && elapsed@
            < overall_timeout@ && session is Ok,
{
}

} // verus!
