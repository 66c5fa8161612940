//! The installation of a build: which commands it takes, and what their ends mean.
use crate::command::CommandOutput;
use crate::result::FailureReason;
use crate::text::{
    blank, cat2, contains, join, lines, owned, starts_with, strings, trim,
};
use crate::time::{Duration, Instant};
use crate::text;
use vstd::prelude::*;

verus! {

/// Why an installation failed.
#[derive(Debug, Clone)]
pub struct InstallError {
    pub reason: FailureReason,
    pub message: String,
}

impl InstallError {
    pub open spec fn says(&self, reason: FailureReason, message: Seq<char>) -> bool {
        self.reason == reason && self.message@ == message
    }

    pub fn new(reason: FailureReason, message: String) -> (out: Self)
        ensures
            out.reason == reason,
            out.message == message,
    {
        InstallError { reason, message }
    }
}

/// What `str::to_lowercase` makes of a text.
pub uninterp spec fn lowercase(written: Seq<char>) -> Seq<char>;

/// `str::to_lowercase`: the lower case form of a text depends on the text alone. Where the text is
/// ASCII, each letter gives its lower case, and anything else stays.
pub assume_specification[ str::to_lowercase ](written: &str) -> (out: String)
    ensures
        out@ == lowercase(written@),
        text::all_ascii(written@) ==> out@ == text::lower_seq(written@),
;

/// Whether a complaint in lower case is about something else that the app needs.
pub open spec fn about_dependencies(lower: Seq<char>) -> bool {
    ||| text::occurs(lower, "runtime"@)
    ||| text::occurs(lower, "dependency"@)
    ||| text::occurs(lower, "no such ref"@)
    ||| text::occurs(lower, "no remote refs found"@)
    ||| text::occurs(lower, "not found"@)
}

/// The reason that a complaint in lower case gives.
pub open spec fn complaint_reason(lower: Seq<char>) -> FailureReason {
    if about_dependencies(lower) {
        FailureReason::DependencyFailed
    } else {
        FailureReason::InstallFailed
    }
}

/// The reason that a complaint in lower case gives.
pub fn install_error_reason(lower: &str) -> (out: FailureReason)
    ensures
        out == complaint_reason(lower@),
{
    if contains(lower, "runtime") || contains(lower, "dependency") || contains(
        lower,
        "no such ref",
    ) || contains(lower, "no remote refs found") || contains(lower, "not found") {
        FailureReason::DependencyFailed
    } else {
        FailureReason::InstallFailed
    }
}

/// What the error output of an installation means.
pub fn classify_install_error(stderr: String) -> (out: InstallError)
    ensures
        out.says(
            complaint_reason(lowercase(stderr@)),
            "flatpak install failed: "@ + text::trimmed(stderr@),
        ),
        text::all_ascii(stderr@) ==> out.reason == complaint_reason(text::lower_seq(stderr@)),
{
    let lower = stderr.as_str().to_lowercase();
    InstallError::new(
        install_error_reason(lower.as_str()),
        cat2("flatpak install failed: ", trim(stderr.as_str()).as_str()),
    )
}

/// The time that an installation has left.
pub fn remaining_timeout(now: Instant, deadline: Instant) -> (out: Result<Duration, String>)
    ensures
        now@ < deadline@ ==> (out matches Ok(left) && left@ == deadline@ - now@),
        now@ >= deadline@ ==> (out matches Err(message) && message@ == "overall timeout elapsed"@),
{
    let left = deadline.duration_since(now);
    if left.is_zero() {
        Err(owned("overall timeout elapsed"))
    } else {
        Ok(left)
    }
}

// ---------------------------------------------------------------------------
// Installed refs

/// The lines that are not blank, without white space around them.
pub open spec fn listed_refs(lines: Seq<Seq<char>>) -> Seq<Seq<char>>
    decreases lines.len(),
{
    if lines.len() == 0 {
        Seq::empty()
    } else if text::trimmed(lines.last()).len() == 0 {
        listed_refs(lines.drop_last())
    } else {
        listed_refs(lines.drop_last()).push(text::trimmed(lines.last()))
    }
}

/// The refs that a listing names, one on each line.
pub fn installed_refs(listing: &str) -> (out: Vec<String>)
    ensures
        text::views(out@) == listed_refs(text::lines_of(listing@)),
{
    let all = lines(listing);
    let ghost written = text::views(all@);
    let mut out: Vec<String> = Vec::new();
    let mut i: usize = 0;
    assert(written.take(0) =~= Seq::empty());
    assert(text::views(out@) =~= Seq::empty());
    while i < all.len()
        invariant
            i <= all@.len(),
            written == text::views(all@),
            text::views(out@) == listed_refs(written.take(i as int)),
        decreases all@.len() - i,
    {
        proof {
            assert(written.take(i + 1).drop_last() =~= written.take(i as int));
            assert(written.take(i + 1).last() == all@[i as int]@);
        }
        if !blank(all[i].as_str()) {
            let line = trim(all[i].as_str());
            proof {
                text::lemma_views_push(out@, line);
            }
            out.push(line);
        }
        i = i + 1;
    }
    assert(written.take(written.len() as int) =~= written);
    out
}

/// A ref with its kind in front.
pub open spec fn full_ref(app_ref: Seq<char>) -> Seq<char> {
    if text::begins(app_ref, "app/"@) {
        app_ref
    } else {
        "app/"@ + app_ref
    }
}

/// A ref with its kind in front.
pub fn normalize_app_ref(app_ref: &str) -> (out: String)
    ensures
        out@ == full_ref(app_ref@),
{
    if starts_with(app_ref, "app/") {
        owned(app_ref)
    } else {
        cat2("app/", app_ref)
    }
}

/// A ref that has its kind in front stays as it is.
pub proof fn full_refs_stay(app_ref: Seq<char>)
    ensures
        full_ref(full_ref(app_ref)) == full_ref(app_ref),
{
    assert(("app/"@ + app_ref).subrange(0, "app/"@.len() as int) =~= "app/"@);
    assert(("app/"@ + app_ref).take("app/"@.len() as int) =~= "app/"@);
}

/// The one ref that a bundle brought, or why it is not known.
pub open spec fn inferred_ref(refs: Seq<Seq<char>>) -> Result<Seq<char>, Seq<char>> {
    if refs.len() == 1 {
        Ok(full_ref(refs[0]))
    } else if refs.len() == 0 {
        Err("bundle installed but no app ref could be inferred"@)
    } else {
        Err("bundle installed but app ref was ambiguous: "@ + text::join_seq(refs, ", "@))
    }
}

/// The one ref that a bundle brought, or why it is not known.
pub fn infer_single_installed_app_ref(refs: &Vec<String>) -> (out: Result<String, String>)
    ensures
        match inferred_ref(text::views(refs@)) {
            Ok(expected) => out matches Ok(app_ref) && app_ref@ == expected,
            Err(expected) => out matches Err(message) && message@ == expected,
        },
{
    if refs.len() == 1 {
        Ok(normalize_app_ref(refs[0].as_str()))
    } else if refs.len() == 0 {
        Err(owned("bundle installed but no app ref could be inferred"))
    } else {
        Err(cat2("bundle installed but app ref was ambiguous: ", join(refs, ", ").as_str()))
    }
}

// ---------------------------------------------------------------------------
// The course of an installation

/// The name under which a local repository is added.
pub open spec fn local_remote() -> Seq<char> {
    "flatpak-smoke-local"@
}

/// How far an installation has come. `app_ref` is the ref that a repository is asked for.
#[allow(inconsistent_fields)]
pub enum Progress {
    Flathub { app_ref: Option<Seq<char>> },
    Bundle,
    List,
    Remote { app_ref: Seq<char> },
    Ref { app_ref: Seq<char> },
    Listed { refs: Seq<Seq<char>> },
    Installed { app_ref: Seq<char> },
    Failed { app_ref: Option<Seq<char>>, reason: FailureReason, message: Seq<char> },
}

/// What an installation does next, or how it ended.
#[derive(Debug)]
#[allow(inconsistent_fields)]
pub enum Installation {
    /// Add Flathub.
    Flathub { app_ref: Option<String> },
    /// Install the bundle.
    Bundle,
    /// List what is installed.
    List,
    /// Add the local repository.
    Remote { app_ref: String },
    /// Install the ref from it.
    Ref { app_ref: String },
    /// A bundle brought these.
    Listed { refs: Vec<String> },
    /// The ref from the repository is there.
    Installed { app_ref: String },
    Failed { app_ref: Option<String>, error: InstallError },
}

impl View for Installation {
    type V = Progress;

    open spec fn view(&self) -> Progress {
        match *self {
            Installation::Flathub { app_ref } => Progress::Flathub {
                app_ref: text::option_view(app_ref),
            },
            Installation::Bundle => Progress::Bundle,
            Installation::List => Progress::List,
            Installation::Remote { app_ref } => Progress::Remote { app_ref: app_ref@ },
            Installation::Ref { app_ref } => Progress::Ref { app_ref: app_ref@ },
            Installation::Listed { refs } => Progress::Listed { refs: text::views(refs@) },
            Installation::Installed { app_ref } => Progress::Installed { app_ref: app_ref@ },
            Installation::Failed { app_ref, error } => Progress::Failed {
                app_ref: text::option_view(app_ref),
                reason: error.reason,
                message: error.message@,
            },
        }
    }
}

/// The first thing to install once Flathub is there, or is not wanted.
pub open spec fn first_install(app_ref: Option<Seq<char>>) -> Progress {
    match app_ref {
        Some(app_ref) => Progress::Remote { app_ref },
        None => Progress::Bundle,
    }
}

/// The first step of an installation: Flathub first, where it is wanted.
pub open spec fn first_step(app_ref: Option<Seq<char>>, allow_network_remotes: bool) -> Progress {
    if allow_network_remotes {
        Progress::Flathub { app_ref }
    } else {
        first_install(app_ref)
    }
}

/// The arguments of the next command, before the path of the build where it takes one.
pub open spec fn install_arguments(progress: Progress) -> Seq<Seq<char>> {
    match progress {
        Progress::Flathub { .. } => seq![
            "remote-add"@,
            "--user"@,
            "--if-not-exists"@,
            "flathub"@,
            "https://flathub.org/repo/flathub.flatpakrepo"@,
        ],
        Progress::Bundle => seq!["install"@, "--user"@, "--noninteractive"@],
        Progress::List => seq!["list"@, "--user"@, "--app"@, "--columns=ref"@],
        Progress::Remote { .. } => seq![
            "remote-add"@,
            "--user"@,
            "--if-not-exists"@,
            "--no-gpg-verify"@,
            local_remote(),
        ],
        Progress::Ref { app_ref } => seq![
            "install"@,
            "--user"@,
            "--noninteractive"@,
            local_remote(),
            app_ref,
        ],
        _ => Seq::empty(),
    }
}

/// The reason that counts where a command cannot be run, or its time is up.
pub open spec fn broken_reason(progress: Progress) -> FailureReason {
    match progress {
        Progress::Flathub { .. } => FailureReason::DependencyFailed,
        Progress::List => FailureReason::InternalError,
        _ => FailureReason::InstallFailed,
    }
}

/// The ref that is known when an installation fails.
pub open spec fn known_ref(progress: Progress) -> Option<Seq<char>> {
    match progress {
        Progress::Flathub { app_ref } => app_ref,
        Progress::Remote { app_ref } => Some(app_ref),
        Progress::Ref { app_ref } => Some(app_ref),
        _ => None,
    }
}

pub open spec fn install_failure(
    progress: Progress,
    reason: FailureReason,
    message: Seq<char>,
) -> Progress {
    Progress::Failed { app_ref: known_ref(progress), reason, message }
}

/// How an installation goes on after its command: `Err` tells that it could not be run.
pub open spec fn install_step(progress: Progress, result: Result<CommandOutput, String>) -> Progress {
    match (progress, result) {
        (Progress::Listed { .. }, _) => progress,
        (Progress::Installed { .. }, _) => progress,
        (Progress::Failed { .. }, _) => progress,
        (_, Err(message)) => install_failure(progress, broken_reason(progress), message@),
        (Progress::Flathub { app_ref }, Ok(output)) => if output.success {
            first_install(app_ref)
        } else {
            install_failure(
                progress,
                FailureReason::DependencyFailed,
                "failed to add Flathub remote: "@ + text::trimmed(output.stderr@),
            )
        },
        (Progress::Bundle, Ok(output)) => if output.success {
            Progress::List
        } else {
            install_failure(
                progress,
                complaint_reason(lowercase(output.stderr@)),
                "flatpak install failed: "@ + text::trimmed(output.stderr@),
            )
        },
        (Progress::List, Ok(output)) => if !output.success {
            install_failure(
                progress,
                FailureReason::InternalError,
                "flatpak list failed: "@ + text::trimmed(output.stderr@),
            )
        } else {
            Progress::Listed { refs: listed_refs(text::lines_of(output.stdout@)) }
        },
        (Progress::Remote { app_ref }, Ok(output)) => if output.success {
            Progress::Ref { app_ref }
        } else {
            install_failure(
                progress,
                FailureReason::InstallFailed,
                "flatpak remote-add failed: "@ + text::trimmed(output.stderr@),
            )
        },
        (Progress::Ref { app_ref }, Ok(output)) => if output.success {
            Progress::Installed { app_ref }
        } else {
            install_failure(
                progress,
                complaint_reason(lowercase(output.stderr@)),
                "flatpak install failed: "@ + text::trimmed(output.stderr@),
            )
        },
    }
}

fn fail(app_ref: Option<String>, reason: FailureReason, message: String) -> (out: Installation)
    ensures
        out@ == (Progress::Failed { app_ref: text::option_view(app_ref), reason, message: message@ }),
{
    Installation::Failed { app_ref, error: InstallError::new(reason, message) }
}

impl Installation {
    /// Begins the installation of a bundle.
    pub fn bundle(allow_network_remotes: bool) -> (out: Self)
        ensures
            out@ == first_step(None, allow_network_remotes),
    {
        if allow_network_remotes {
            Installation::Flathub { app_ref: None }
        } else {
            Installation::Bundle
        }
    }

    /// Begins the installation of a ref from a repository.
    pub fn repo(app_ref: &str, allow_network_remotes: bool) -> (out: Self)
        ensures
            out@ == first_step(Some(app_ref@), allow_network_remotes),
    {
        if allow_network_remotes {
            Installation::Flathub { app_ref: Some(owned(app_ref)) }
        } else {
            Installation::Remote { app_ref: owned(app_ref) }
        }
    }

    /// The arguments of the next `flatpak` command.
    pub fn arguments(&self) -> (out: Vec<String>)
        ensures
            text::views(out@) == install_arguments(self@),
    {
        let out = match self {
            Installation::Flathub { .. } => strings(
                vec![
                    "remote-add",
                    "--user",
                    "--if-not-exists",
                    "flathub",
                    "https://flathub.org/repo/flathub.flatpakrepo",
                ],
            ),
            Installation::Bundle => strings(vec!["install", "--user", "--noninteractive"]),
            Installation::List => strings(vec!["list", "--user", "--app", "--columns=ref"]),
            Installation::Remote { .. } => strings(
                vec![
                    "remote-add",
                    "--user",
                    "--if-not-exists",
                    "--no-gpg-verify",
                    "flatpak-smoke-local",
                ],
            ),
            Installation::Ref { app_ref } => strings(
                vec![
                    "install",
                    "--user",
                    "--noninteractive",
                    "flatpak-smoke-local",
                    app_ref.as_str(),
                ],
            ),
            _ => Vec::new(),
        };
        assert(text::views(out@) =~= install_arguments(self@));
        out
    }

    /// Whether the path of the build follows the arguments.
    pub fn takes_path(&self) -> (yes: bool)
        ensures
            yes == (self@ is Bundle || self@ is Remote),
    {
        match self {
            Installation::Bundle | Installation::Remote { .. } => true,
            _ => false,
        }
    }

    /// Goes on after the command; `Err` tells that it could not be run.
    pub fn advance(self, result: Result<CommandOutput, String>) -> (out: Self)
        ensures
            out@ == install_step(self@, result),
    {
        match (self, result) {
            (Installation::Listed { refs }, _) => Installation::Listed { refs },
            (Installation::Installed { app_ref }, _) => Installation::Installed { app_ref },
            (Installation::Failed { app_ref, error }, _) => Installation::Failed { app_ref, error },
            (Installation::Flathub { app_ref }, Err(message)) => fail(
                app_ref,
                FailureReason::DependencyFailed,
                message,
            ),
            (Installation::Bundle, Err(message)) => fail(
                None,
                FailureReason::InstallFailed,
                message,
            ),
            (Installation::List, Err(message)) => fail(None, FailureReason::InternalError, message),
            (Installation::Remote { app_ref }, Err(message)) => fail(
                Some(app_ref),
                FailureReason::InstallFailed,
                message,
            ),
            (Installation::Ref { app_ref }, Err(message)) => fail(
                Some(app_ref),
                FailureReason::InstallFailed,
                message,
            ),
            (Installation::Flathub { app_ref }, Ok(output)) => {
                if !output.success {
                    return fail(
                        app_ref,
                        FailureReason::DependencyFailed,
                        cat2(
                            "failed to add Flathub remote: ",
                            trim(output.stderr.as_str()).as_str(),
                        ),
                    );
                }
                match app_ref {
                    Some(app_ref) => Installation::Remote { app_ref },
                    None => Installation::Bundle,
                }
            },
            (Installation::Bundle, Ok(output)) => {
                if output.success {
                    Installation::List
                } else {
                    Installation::Failed {
                        app_ref: None,
                        error: classify_install_error(output.stderr),
                    }
                }
            },
            (Installation::List, Ok(output)) => {
                if !output.success {
                    return fail(
                        None,
                        FailureReason::InternalError,
                        cat2("flatpak list failed: ", trim(output.stderr.as_str()).as_str()),
                    );
                }
                Installation::Listed { refs: installed_refs(output.stdout.as_str()) }
            },
            (Installation::Remote { app_ref }, Ok(output)) => {
                if output.success {
                    Installation::Ref { app_ref }
                } else {
                    fail(
                        Some(app_ref),
                        FailureReason::InstallFailed,
                        cat2("flatpak remote-add failed: ", trim(output.stderr.as_str()).as_str()),
                    )
                }
            },
            (Installation::Ref { app_ref }, Ok(output)) => {
                if output.success {
                    Installation::Installed { app_ref }
                } else {
                    Installation::Failed {
                        app_ref: Some(app_ref),
                        error: classify_install_error(output.stderr),
                    }
                }
            },
        }
    }
}

/// Flathub is asked for nothing unless network remotes are allowed: an installation that begins
/// without it never comes to it.
pub proof fn flathub_is_left_alone(progress: Progress, result: Result<CommandOutput, String>)
    requires
        !(progress is Flathub),
    ensures
        !(install_step(progress, result) is Flathub),
{
}

/// A ref from a repository is installed under its own name.
pub proof fn repositories_install_the_wanted_ref(
    app_ref: Seq<char>,
    progress: Progress,
    result: Result<CommandOutput, String>,
)
    requires
        known_ref(progress) == Some(app_ref) || progress == (Progress::Installed { app_ref }),
    ensures
        ({
            let next = install_step(progress, result);
            known_ref(next) == Some(app_ref) || next == (Progress::Installed { app_ref }) || (
            next matches Progress::Failed { app_ref: known, .. } && known == Some(app_ref))
        }),
{
}

} // verus!
