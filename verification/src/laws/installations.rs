//! Installations: which commands are run, and what comes of each.
use crate::command::CommandOutput;
use crate::installer::Progress;
use crate::result::FailureReason;
use crate::{installer, text};
use vstd::prelude::*;

verus! {

/// The command that an installation runs next, with the path of the build where it takes one.
pub open spec fn next_command(progress: Progress, path: Seq<char>) -> Seq<Seq<char>> {
    if progress is Bundle || progress is Remote {
        installer::install_arguments(progress).push(path)
    } else {
        installer::install_arguments(progress)
    }
}

/// The command that adds Flathub.
pub open spec fn flathub_command() -> Seq<Seq<char>> {
    seq![
        "remote-add"@,
        "--user"@,
        "--if-not-exists"@,
        "flathub"@,
        "https://flathub.org/repo/flathub.flatpakrepo"@,
    ]
}

/// Where network remotes are allowed, an installation first adds Flathub, for a bundle and for a
/// ref alike, and goes on with its own commands only once that is done.
pub proof fn flathub_comes_first(
    app_ref: Option<Seq<char>>,
    path: Seq<char>,
    output: CommandOutput,
)
    ensures
        ({
            let start = installer::first_step(app_ref, true);
            let next = installer::install_step(start, Ok(output));
            &&& next_command(start, path) == flathub_command()
            &&& output.success ==> next == installer::first_step(app_ref, false)
            &&& !output.success ==> next == (Progress::Failed {
                app_ref,
                reason: FailureReason::DependencyFailed,
                message: "failed to add Flathub remote: "@ + text::trimmed(output.stderr@),
            })
            &&& next_command(installer::first_step(app_ref, false), path) != flathub_command()
        }),
{
    let plain = next_command(installer::first_step(app_ref, false), path);
    assert(flathub_command().len() == 5);
    if app_ref is Some {
        assert(plain.len() == 6);
    } else {
        assert(plain.len() == 4);
    }
}

/// A bundle is installed by its path, and what it brought is listed: each line of the listing that
/// is not blank is a ref.
pub proof fn bundles_are_installed_and_listed(
    path: Seq<char>,
    installed: CommandOutput,
    listed: CommandOutput,
)
    requires
        installed.success,
        listed.success,
    ensures
        ({
            let start = installer::first_step(None, false);
            let next = installer::install_step(start, Ok(installed));
            let end = installer::install_step(next, Ok(listed));
            &&& next_command(start, path) == seq![
                "install"@,
                "--user"@,
                "--noninteractive"@,
                path,
            ]
            &&& next_command(next, path) == seq!["list"@, "--user"@, "--app"@, "--columns=ref"@]
            &&& end == (Progress::Listed {
                refs: text::lines_of(listed.stdout@).map_values(
                    |line: Seq<char>| text::trimmed(line),
                ).filter(|line: Seq<char>| line.len() > 0),
            })
        }),
{
    let start = installer::first_step(None, false);
    assert(next_command(start, path) =~= seq!["install"@, "--user"@, "--noninteractive"@, path]);
    lemma_listed(text::lines_of(listed.stdout@));
}

proof fn lemma_listed(lines: Seq<Seq<char>>)
    ensures
        installer::listed_refs(lines) == lines.map_values(
            |line: Seq<char>| text::trimmed(line),
        ).filter(|line: Seq<char>| line.len() > 0),
    decreases lines.len(),
{
    reveal(Seq::filter);
    let trims = |line: Seq<char>| text::trimmed(line);
    let all = lines.map_values(trims);
    if lines.len() > 0 {
        lemma_listed(lines.drop_last());
        assert(all.drop_last() =~= lines.drop_last().map_values(trims));
        assert(all.last() == text::trimmed(lines.last()));
    }
}

/// A ref is installed from the local repository, which is added by its path without keys.
pub proof fn refs_are_installed_from_the_repository(
    app_ref: Seq<char>,
    path: Seq<char>,
    added: CommandOutput,
    installed: CommandOutput,
)
    requires
        added.success,
        installed.success,
    ensures
        ({
            let start = installer::first_step(Some(app_ref), false);
            let next = installer::install_step(start, Ok(added));
            let end = installer::install_step(next, Ok(installed));
            &&& next_command(start, path) == seq![
                "remote-add"@,
                "--user"@,
                "--if-not-exists"@,
                "--no-gpg-verify"@,
                "flatpak-smoke-local"@,
                path,
            ]
            &&& next_command(next, path) == seq![
                "install"@,
                "--user"@,
                "--noninteractive"@,
                "flatpak-smoke-local"@,
                app_ref,
            ]
            &&& end == (Progress::Installed { app_ref })
        }),
{
    let start = installer::first_step(Some(app_ref), false);
    assert(next_command(start, path) =~= seq![
        "remote-add"@,
        "--user"@,
        "--if-not-exists"@,
        "--no-gpg-verify"@,
        "flatpak-smoke-local"@,
        path,
    ]);
}

/// The words that tell of something else that an app needs.
pub open spec fn names_a_dependency(lower: Seq<char>) -> bool {
    exists|before: Seq<char>, word: Seq<char>, behind: Seq<char>|
        {
            &&& lower == #[trigger] (before + word + behind)
            &&& (word == "runtime"@ || word == "dependency"@ || word == "no such ref"@ || word
                == "no remote refs found"@ || word == "not found"@)
        }
}

proof fn lemma_occurs(hay: Seq<char>, needle: Seq<char>)
    ensures
        text::occurs(hay, needle) <==> exists|before: Seq<char>, behind: Seq<char>|
            hay == #[trigger] (before + needle + behind),
{
    if text::occurs(hay, needle) {
        let i = choose|i: int| text::occurs_at(hay, needle, i);
        let before = hay.take(i);
        let behind = hay.skip(i + needle.len());
        assert(hay =~= before + needle + behind);
    }
    if exists|before: Seq<char>, behind: Seq<char>|
        hay == #[trigger] (before + needle + behind) {
        let (before, behind) = choose|before: Seq<char>, behind: Seq<char>|
            hay == #[trigger] (before + needle + behind);
        assert(hay.subrange(before.len() as int, before.len() as int + needle.len()) =~= needle);
        assert(text::occurs_at(hay, needle, before.len() as int));
    }
}

/// A complaint is about a dependency exactly when it holds one of the words that tell so, anywhere.
pub proof fn complaints_are_told_apart(lower: Seq<char>)
    ensures
        names_a_dependency(lower) ==> installer::complaint_reason(lower)
            == FailureReason::DependencyFailed,
        !names_a_dependency(lower) ==> installer::complaint_reason(lower)
            == FailureReason::InstallFailed,
{
    lemma_occurs(lower, "runtime"@);
    lemma_occurs(lower, "dependency"@);
    lemma_occurs(lower, "no such ref"@);
    lemma_occurs(lower, "no remote refs found"@);
    lemma_occurs(lower, "not found"@);
}

/// A command of an installation that fails ends it, with what it complained of. Where the build
/// itself could not be installed, the complaint tells whether a dependency is to blame; the ref
/// that was asked for stays known.
pub proof fn failed_commands_end_installations(
    progress: Progress,
    app_ref: Seq<char>,
    output: CommandOutput,
)
    requires
        !output.success,
    ensures
        ({
            let complaint = text::trimmed(output.stderr@);
            let blamed = installer::complaint_reason(installer::lowercase(output.stderr@));
            &&& installer::install_step(Progress::Bundle, Ok(output)) == (Progress::Failed {
                app_ref: None,
                reason: blamed,
                message: "flatpak install failed: "@ + complaint,
            })
            &&& installer::install_step(Progress::Ref { app_ref }, Ok(output)) == (
            Progress::Failed {
                app_ref: Some(app_ref),
                reason: blamed,
                message: "flatpak install failed: "@ + complaint,
            })
            &&& installer::install_step(Progress::Remote { app_ref }, Ok(output)) == (
            Progress::Failed {
                app_ref: Some(app_ref),
                reason: FailureReason::InstallFailed,
                message: "flatpak remote-add failed: "@ + complaint,
            })
            &&& installer::install_step(Progress::List, Ok(output)) == (Progress::Failed {
                app_ref: None,
                reason: FailureReason::InternalError,
                message: "flatpak list failed: "@ + complaint,
            })
        }),
{
}

/// A command that cannot be run ends an installation with that message: adding Flathub is a
/// dependency, listing is the run's own matter, and anything else is the installation.
pub proof fn commands_that_cannot_run_end_installations(
    known: Option<Seq<char>>,
    app_ref: Seq<char>,
    message: String,
)
    ensures
        installer::install_step(Progress::Flathub { app_ref: known }, Err(message)) == (
        Progress::Failed {
            app_ref: known,
            reason: FailureReason::DependencyFailed,
            message: message@,
        }),
        installer::install_step(Progress::Bundle, Err(message)) == (Progress::Failed {
            app_ref: None,
            reason: FailureReason::InstallFailed,
            message: message@,
        }),
        installer::install_step(Progress::List, Err(message)) == (Progress::Failed {
            app_ref: None,
            reason: FailureReason::InternalError,
            message: message@,
        }),
        installer::install_step(Progress::Remote { app_ref }, Err(message)) == (Progress::Failed {
            app_ref: Some(app_ref),
            reason: FailureReason::InstallFailed,
            message: message@,
        }),
        installer::install_step(Progress::Ref { app_ref }, Err(message)) == (Progress::Failed {
            app_ref: Some(app_ref),
            reason: FailureReason::InstallFailed,
            message: message@,
        }),
{
}

/// An installation that ended stays as it is.
pub proof fn ended_installations_stay(progress: Progress, result: Result<CommandOutput, String>)
    requires
        progress is Listed || progress is Installed || progress is Failed,
    ensures
        installer::install_step(progress, result) == progress,
{
}

/// Exactly one installed ref is the app's, with its kind in front; none and several are refused,
/// and several are all named.
pub proof fn the_one_installed_ref_is_the_apps(refs: Seq<Seq<char>>)
    ensures
        refs.len() == 1 && text::begins(refs[0], "app/"@) ==> installer::inferred_ref(refs) == Ok::<
            Seq<char>,
            Seq<char>,
        >(refs[0]),
        refs.len() == 1 && !text::begins(refs[0], "app/"@) ==> installer::inferred_ref(refs)
            == Ok::<Seq<char>, Seq<char>>("app/"@ + refs[0]),
        refs.len() == 0 ==> installer::inferred_ref(refs) == Err::<Seq<char>, Seq<char>>(
            "bundle installed but no app ref could be inferred"@,
        ),
        refs.len() > 1 ==> installer::inferred_ref(refs) == Err::<Seq<char>, Seq<char>>(
            "bundle installed but app ref was ambiguous: "@ + text::join_seq(refs, ", "@),
        ),
{
}

} // verus!
