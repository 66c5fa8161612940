use flatpak_smoke::cli::{VerifyBundleArgs, VerifyCommonArgs, VerifyRepoArgs};
use flatpak_smoke::command::CommandOutput;
use flatpak_smoke::installer::{
    classify_install_error, infer_single_installed_app_ref, install_error_reason, installed_refs,
    normalize_app_ref, remaining_timeout, InstallError, Installation,
};
use flatpak_smoke::output::{
    artifacts, has_several_components, is_single_component, join_path, parts_of, OutputLayout,
};
use flatpak_smoke::result::{
    Artifact, ArtifactKind, FailureReason, RunResult, RunStatus, Timings,
};
use flatpak_smoke::session::{SessionError, SessionSuccess};
use flatpak_smoke::time::{Duration, Instant};
use flatpak_smoke::tools::{
    check_path, doctor, ensure_required_tools, is_executable, missing_paths, missing_tools,
    required_paths, required_tools, RequiredPath,
};
use flatpak_smoke::verify::{
    display_env, env_value, finish_installation, isolated_flatpak_env, portal_config,
    validate_app_ref, validate_screenshot_name, verify_bundle, verify_repo, weston_config,
    Verification, VerifyEvent,
};

fn ran(success: bool, stdout: &str, stderr: &str) -> Result<CommandOutput, String> {
    Ok(CommandOutput {
        success,
        status: "exit status".to_string(),
        stdout: stdout.to_string(),
        stderr: stderr.to_string(),
    })
}

fn at(millis: u64) -> Instant {
    Instant { nanos: 1_000_000 * u128::from(millis) }
}

#[test]
fn classifies_runtime_resolution_failures_as_dependency_failures() {
    let error = classify_install_error(
        "Required runtime org.freedesktop.Platform not found".to_string(),
    );
    assert_eq!(error.reason, FailureReason::DependencyFailed);
}

#[test]
fn classifies_other_install_failures_as_install_failed() {
    let error = classify_install_error("error opening bundle".to_string());
    assert_eq!(error.reason, FailureReason::InstallFailed);
}

#[test]
fn install_errors_are_classified_without_regard_to_case() {
    for stderr in [
        "RUNTIME is gone",
        "A Dependency failed",
        "No Such Ref",
        "No remote refs found for x",
        "Nothing NOT FOUND",
    ] {
        let error = classify_install_error(format!(" {stderr}\n"));
        assert_eq!(error.reason, FailureReason::DependencyFailed);
        assert_eq!(error.message, format!("flatpak install failed: {stderr}"));
    }
    assert_eq!(install_error_reason("RUNTIME"), FailureReason::InstallFailed);
    assert_eq!(install_error_reason("runtime"), FailureReason::DependencyFailed);
    let made = InstallError::new(FailureReason::InstallFailed, "why".to_string());
    assert_eq!(made.message, "why");
}

#[test]
fn install_time_runs_out() {
    assert_eq!(remaining_timeout(at(100), at(400)), Ok(Duration::from_millis(300)));
    assert_eq!(
        remaining_timeout(at(400), at(400)),
        Err("overall timeout elapsed".to_string())
    );
}

#[test]
fn listings_give_the_refs() {
    assert_eq!(
        installed_refs("org.example.App/x86_64/stable\n\n  org.example.Other/x86_64/beta  \n"),
        vec!["org.example.App/x86_64/stable", "org.example.Other/x86_64/beta"]
    );
    assert_eq!(
        infer_single_installed_app_ref(&vec!["org.example.App/x86_64/stable".to_string()]),
        Ok("app/org.example.App/x86_64/stable".to_string())
    );
    assert_eq!(
        infer_single_installed_app_ref(&Vec::new()),
        Err("bundle installed but no app ref could be inferred".to_string())
    );
    assert_eq!(
        infer_single_installed_app_ref(&vec!["a".to_string(), "b".to_string()]),
        Err("bundle installed but app ref was ambiguous: a, b".to_string())
    );
}

#[test]
fn bundles_are_installed_and_listed() {
    let installation = Installation::bundle(false);
    assert_eq!(installation.arguments(), vec!["install", "--user", "--noninteractive"]);
    assert!(installation.takes_path());
    let installation = installation.advance(ran(true, "", ""));
    assert_eq!(installation.arguments(), vec!["list", "--user", "--app", "--columns=ref"]);
    assert!(!installation.takes_path());
    match installation.advance(ran(true, "org.example.App/x86_64/stable\n", "")) {
        Installation::Listed { refs } => assert_eq!(refs, vec!["org.example.App/x86_64/stable"]),
        other => panic!("unexpected {other:?}"),
    }
}

#[test]
fn flathub_comes_first_where_network_remotes_are_allowed() {
    let installation = Installation::bundle(true);
    assert_eq!(
        installation.arguments(),
        vec![
            "remote-add",
            "--user",
            "--if-not-exists",
            "flathub",
            "https://flathub.org/repo/flathub.flatpakrepo",
        ]
    );
    assert!(!installation.takes_path());
    assert!(matches!(installation.advance(ran(true, "", "")), Installation::Bundle));
    match Installation::bundle(true).advance(ran(false, "", " offline\n")) {
        Installation::Failed { app_ref, error } => {
            assert_eq!(app_ref, None);
            assert_eq!(error.reason, FailureReason::DependencyFailed);
            assert_eq!(error.message, "failed to add Flathub remote: offline");
        }
        other => panic!("unexpected {other:?}"),
    }
    assert!(matches!(Installation::bundle(false), Installation::Bundle));
}

#[test]
fn repositories_become_local_remotes() {
    let installation = Installation::repo("org.example.App", false);
    assert_eq!(
        installation.arguments(),
        vec![
            "remote-add",
            "--user",
            "--if-not-exists",
            "--no-gpg-verify",
            "flatpak-smoke-local",
        ]
    );
    assert!(installation.takes_path());
    let installation = installation.advance(ran(true, "", ""));
    assert_eq!(
        installation.arguments(),
        vec!["install", "--user", "--noninteractive", "flatpak-smoke-local", "org.example.App"]
    );
    match installation.advance(ran(true, "", "")) {
        Installation::Installed { app_ref } => assert_eq!(app_ref, "org.example.App"),
        other => panic!("unexpected {other:?}"),
    }
}

#[test]
fn installations_fail_with_their_reason() {
    let failure = |installation: Installation, result| match installation.advance(result) {
        Installation::Failed { app_ref, error } => (app_ref, error.reason, error.message),
        other => panic!("unexpected {other:?}"),
    };
    assert_eq!(
        failure(Installation::Bundle, ran(false, "", "broken")),
        (None, FailureReason::InstallFailed, "flatpak install failed: broken".to_string())
    );
    assert_eq!(
        failure(Installation::Bundle, Err("timed out".to_string())),
        (None, FailureReason::InstallFailed, "timed out".to_string())
    );
    assert_eq!(
        failure(Installation::List, ran(false, "", "broken")),
        (None, FailureReason::InternalError, "flatpak list failed: broken".to_string())
    );
    let known = Some("org.example.App".to_string());
    assert_eq!(
        failure(
            Installation::Remote { app_ref: "org.example.App".to_string() },
            ran(false, "", "broken")
        ),
        (
            known.clone(),
            FailureReason::InstallFailed,
            "flatpak remote-add failed: broken".to_string()
        )
    );
    assert_eq!(
        failure(
            Installation::Ref { app_ref: "org.example.App".to_string() },
            ran(false, "", "No such ref")
        ),
        (
            known.clone(),
            FailureReason::DependencyFailed,
            "flatpak install failed: No such ref".to_string()
        )
    );
    assert_eq!(
        failure(
            Installation::Flathub { app_ref: known.clone() },
            Err("overall timeout elapsed".to_string())
        ),
        (known, FailureReason::DependencyFailed, "overall timeout elapsed".to_string())
    );
}

#[test]
fn refuses_existing_artifacts_without_force() {
    let error = OutputLayout::prepare("out", true, true, false).unwrap_err();
    assert!(error.to_string().contains("--force"));
}

#[test]
fn force_removes_previous_artifacts() {
    let (layout, removed) = OutputLayout::prepare("out", true, true, true).unwrap();

    assert!(layout.result_json.ends_with("result.json"));
    assert_eq!(removed, vec!["result.json", "screenshots.json", "screenshots", "logs"]);
}

#[test]
fn fresh_directories_need_no_force() {
    let (layout, removed) = OutputLayout::prepare("out", false, false, false).unwrap();
    assert!(removed.is_empty());
    assert_eq!(layout.screenshots_dir, "out/screenshots");
    assert_eq!(layout.logs_dir, "out/logs");
    assert_eq!(layout.screenshots_json, "out/screenshots.json");
    assert_eq!(layout.app_stdout, "out/logs/app.stdout.log");
    assert_eq!(layout.app_stderr, "out/logs/app.stderr.log");
    assert_eq!(layout.runner_log, "out/logs/runner.log");
    assert!(OutputLayout::prepare("out", true, false, false).is_ok());
    assert_eq!(artifacts(), vec!["result.json", "screenshots.json", "screenshots", "logs"]);
}

#[test]
fn screenshots_lie_below_the_output() {
    let layout = OutputLayout::new("out");
    assert_eq!(layout.screenshot_path("a.png"), "out/screenshots/a.png");
    assert_eq!(layout.relative_screenshot_path("a.png"), "screenshots/a.png");
    assert_eq!(
        join_path("out", &layout.relative_screenshot_path("a.png")),
        layout.screenshot_path("a.png")
    );
}

#[test]
fn paths_are_joined_and_counted_as_std_does() {
    for base in ["", "/", "out", "out/", "/tmp/out"] {
        for name in ["", "logs", "/abs", "a/b"] {
            let expected = std::path::Path::new(base).join(name);
            assert_eq!(join_path(base, name), expected.to_str().unwrap(), "{base} {name}");
        }
    }
    for path in ["", ".", "..", "/", "a", "a/b", "a/", "./a", "a/.", "a//b", "/a", "../a", "././a"] {
        let count = std::path::Path::new(path).components().count();
        assert_eq!(is_single_component(path), count == 1, "{path}");
        assert_eq!(has_several_components(path), count > 1, "{path}");
    }
    assert_eq!(parts_of("a//b/./c"), vec!["a", "b", "c"]);
}

#[test]
fn serializes_failure_reason_as_stable_snake_case() {
    let json = serde_json::to_string(FailureReason::WindowTimeout.name()).unwrap();
    assert_eq!(json, "\"window_timeout\"");

    let json = serde_json::to_string(FailureReason::AppErrorWindow.name()).unwrap();
    assert_eq!(json, "\"app_error_window\"");
}

#[test]
fn reasons_have_distinct_names() {
    let names = [
        FailureReason::InstallFailed,
        FailureReason::DependencyFailed,
        FailureReason::DisplayStartFailed,
        FailureReason::DisplayExited,
        FailureReason::LaunchFailed,
        FailureReason::WindowTimeout,
        FailureReason::EarlyExit,
        FailureReason::ScreenshotFailed,
        FailureReason::AppErrorWindow,
        FailureReason::InternalError,
    ]
    .map(|reason| reason.name());
    for (i, name) in names.iter().enumerate() {
        assert!(!names[..i].contains(name));
    }
    assert_eq!(names[0], "install_failed");
    assert_eq!(names[9], "internal_error");
}

#[test]
fn serializes_result_shape() {
    let result = RunResult::passed(
        "app/org.example.App/x86_64/stable".to_string(),
        Artifact::bundle("app.flatpak"),
        Timings {
            install: Some(1200),
            launch_to_window: Some(2400),
            total: 4100,
        },
        vec!["screenshots/000-window-visible.png".to_string()],
    );

    assert_eq!(result.schema_version, 1);
    assert_eq!(result.status.name(), "passed");
    assert_eq!(result.artifact.kind.name(), "bundle");
    assert_eq!(result.failure, None);
    assert_eq!(result.app_ref.as_deref(), Some("app/org.example.App/x86_64/stable"));
    assert_eq!(result.timings_ms.total, 4100);
    assert!(result.is_passed());
}

#[test]
fn failed_results_tell_why() {
    let result = RunResult::failed(
        None,
        Artifact::repo("repo"),
        Timings::default(),
        vec!["a.png".to_string()],
        FailureReason::EarlyExit,
        "gone".to_string(),
    );
    assert!(!result.is_passed());
    assert_eq!(result.status, RunStatus::Failed);
    assert_eq!(result.status.name(), "failed");
    assert_eq!(result.artifact.kind, ArtifactKind::Repo);
    assert_eq!(result.artifact.kind.name(), "repo");
    assert_eq!(result.artifact.path, "repo");
    assert_eq!(result.timings_ms, Timings { install: None, launch_to_window: None, total: 0 });
    assert_eq!(result.screenshots, vec!["a.png"]);
    let failure = result.failure.unwrap();
    assert_eq!(failure.reason, FailureReason::EarlyExit);
    assert_eq!(failure.message, "gone");
}

#[test]
fn reports_missing_unknown_tool() {
    let missing = missing_tools(&["definitely-not-a-flatpak-smoke-tool"], &[false]);
    assert_eq!(missing, vec!["definitely-not-a-flatpak-smoke-tool"]);
}

#[test]
fn reports_missing_required_paths_by_label() {
    let missing = missing_paths(
        &[RequiredPath::file(
            "definitely missing file",
            "/definitely/not/a/flatpak-smoke-file",
        )],
        &[false],
    );

    assert_eq!(missing, vec!["definitely missing file"]);
}

#[test]
fn only_what_is_not_there_is_missing() {
    assert_eq!(missing_tools(&["a", "b", "c"], &[true, false, true]), vec!["b"]);
    assert!(missing_tools(&["a", "b"], &[true, true]).is_empty());
    let paths = required_paths();
    assert_eq!(paths.len(), 4);
    assert_eq!(
        missing_paths(&paths, &[true, true, true, false]),
        vec!["Weston VNC PAM service"]
    );
    assert_eq!(
        required_tools(),
        vec![
            "flatpak",
            "dbus-run-session",
            "gnome-keyring-daemon",
            "weston",
            "tesseract",
            "compare",
            "convert",
            "identify",
        ]
    );
}

#[test]
fn programs_have_to_be_executable() {
    assert!(is_executable(0o100755));
    assert!(is_executable(0o100001));
    assert!(!is_executable(0o100644));
    let program = RequiredPath::executable("portal", "/usr/libexec/xdg-desktop-portal");
    assert!(program.is_present(Some(0o100755)));
    assert!(!program.is_present(Some(0o100644)));
    assert!(!program.is_present(None));
    let file = RequiredPath::file("portal", "/usr/share/portal");
    assert!(file.is_present(Some(0o100644)));
    assert!(!file.is_present(None));
}

#[test]
fn missing_tools_are_told() {
    assert_eq!(ensure_required_tools(&Vec::new()), Ok(()));
    assert_eq!(
        ensure_required_tools(&vec!["weston".to_string(), "convert".to_string()]),
        Err("missing required tool(s): weston, convert".to_string())
    );
    let (told, verdict) = doctor(&vec!["weston".to_string()]);
    assert_eq!(told, vec!["missing required tool: weston"]);
    assert_eq!(verdict, Err("missing 1 required tool(s)".to_string()));
    let (told, verdict) = doctor(&Vec::new());
    assert!(told.is_empty());
    assert_eq!(verdict, Ok("flatpak-smoke doctor: ok".to_string()));
}

#[test]
fn verify_bundle_requires_existing_bundle() {
    assert_eq!(check_path("missing.flatpak", "bundle", true), Ok(()));
    let error = check_path("missing.flatpak", "bundle", false).unwrap_err();
    assert!(error.contains("does not exist"));
    assert_eq!(error, "bundle 'missing.flatpak' does not exist");

    let args = VerifyBundleArgs { bundle: "missing.flatpak".to_string(), common: common(false) };
    assert_eq!(verify_bundle(args, false).unwrap_err(), error);
}

fn common(allow_network_remotes: bool) -> VerifyCommonArgs {
    VerifyCommonArgs {
        output: "out".to_string(),
        force: false,
        window_timeout: Duration::from_secs(5),
        display_timeout: Duration::from_secs(10),
        screenshot_timeout: Duration::from_secs(10),
        overall_timeout: Duration::from_secs(60),
        allow_network_remotes,
        screenshot_name: "window.png".to_string(),
        screenshot_after_click: vec!["Log In".to_string()],
    }
}

#[test]
fn bundles_that_exist_are_verified() {
    let args = VerifyBundleArgs { bundle: "app.flatpak".to_string(), common: common(false) };
    let begun = verify_bundle(args, true).unwrap();
    assert!(!begun.common.allow_network_remotes);
    assert_eq!(begun.common.screenshot_after_click, ["Log In"]);
    match begun.verification {
        Verification::Tools { artifact } => {
            assert_eq!(artifact.kind, ArtifactKind::Bundle);
            assert_eq!(artifact.path, "app.flatpak");
        }
        other => panic!("{other:?}"),
    }
    assert!(begun.installation.takes_path());
    assert_eq!(begun.installation.arguments(), Installation::bundle(false).arguments());

    let args = VerifyBundleArgs { bundle: "app.flatpak".to_string(), common: common(true) };
    let begun = verify_bundle(args, true).unwrap();
    assert!(!begun.installation.takes_path());
    assert_eq!(begun.installation.arguments(), Installation::bundle(true).arguments());
}

#[test]
fn faulty_screenshot_names_begin_no_verification() {
    let named = || VerifyCommonArgs { screenshot_name: "a/b.png".to_string(), ..common(false) };
    let fault = "--screenshot-name must be a filename, not a path";
    let args = |bundle: &str| VerifyBundleArgs { bundle: bundle.to_string(), common: named() };
    assert_eq!(verify_bundle(args("app.flatpak"), true).unwrap_err(), fault);
    assert_eq!(
        verify_bundle(args("app.flatpak"), false).unwrap_err(),
        "bundle 'app.flatpak' does not exist"
    );

    let args = |app_ref: &str| VerifyRepoArgs {
        repo: "repo".to_string(),
        app_ref: app_ref.to_string(),
        common: named(),
    };
    assert_eq!(verify_repo(args("org.example.App"), true).unwrap_err(), fault);
    assert_eq!(verify_repo(args(""), true).unwrap_err(), validate_app_ref("").unwrap_err());
}

#[test]
fn repositories_need_a_path_and_a_ref() {
    let args = |app_ref: &str| VerifyRepoArgs {
        repo: "repo".to_string(),
        app_ref: app_ref.to_string(),
        common: common(false),
    };
    assert_eq!(verify_repo(args(""), false).unwrap_err(), "repo 'repo' does not exist");
    assert_eq!(
        verify_repo(args(""), true).unwrap_err(),
        validate_app_ref("").unwrap_err()
    );

    let begun = verify_repo(args("org.example.App"), true).unwrap();
    match begun.verification {
        Verification::Tools { artifact } => {
            assert_eq!(artifact.kind, ArtifactKind::Repo);
            assert_eq!(artifact.path, "repo");
        }
        other => panic!("{other:?}"),
    }
    assert_eq!(
        begun.installation.arguments(),
        Installation::repo("org.example.App", false).arguments()
    );
}

#[test]
fn rejects_screenshot_paths() {
    assert!(validate_screenshot_name("nested/window.png").is_err());
    assert!(validate_screenshot_name("window.jpg").is_err());
    assert!(validate_screenshot_name("-window.png").is_err());
    assert!(validate_screenshot_name("window.png").is_ok());
}

#[test]
fn screenshot_names_are_refused_for_a_reason() {
    for (name, message) in [
        ("", "--screenshot-name cannot be empty"),
        ("  ", "--screenshot-name cannot be empty"),
        ("../window.png", "--screenshot-name must be a filename, not a path"),
        ("/window.png", "--screenshot-name must be a filename, not a path"),
        ("-window.png", "--screenshot-name cannot start with '-'"),
        ("window.PNG", "--screenshot-name must end with .png"),
    ] {
        assert_eq!(validate_screenshot_name(name), Err(message.to_string()), "{name}");
    }
}

#[test]
fn rejects_leading_dash_app_refs() {
    assert!(validate_app_ref("--command=sh").is_err());
    assert!(validate_app_ref("app/org.example.App/x86_64/stable").is_ok());
}

#[test]
fn empty_app_refs_are_refused() {
    assert_eq!(validate_app_ref(" "), Err("app ref cannot be empty".to_string()));
    assert_eq!(validate_app_ref("-a"), Err("app ref cannot start with '-'".to_string()));
}

#[test]
fn normalizes_flatpak_list_app_refs() {
    assert_eq!(
        normalize_app_ref("org.example.App/x86_64/stable"),
        "app/org.example.App/x86_64/stable"
    );
    assert_eq!(
        normalize_app_ref("app/org.example.App/x86_64/stable"),
        "app/org.example.App/x86_64/stable"
    );
}

#[test]
fn isolated_env_points_under_workspace() {
    let env = isolated_flatpak_env("/tmp/work");
    assert!(env
        .iter()
        .any(|variable| variable.name == "XDG_DATA_HOME" && variable.value.contains("data")));
    let pairs: Vec<_> = env.iter().map(|v| (v.name.as_str(), v.value.as_str())).collect();
    assert_eq!(
        pairs,
        vec![
            ("XDG_DATA_HOME", "/tmp/work/data"),
            ("XDG_CACHE_HOME", "/tmp/work/cache"),
            ("XDG_CONFIG_HOME", "/tmp/work/config"),
            ("XDG_STATE_HOME", "/tmp/work/state"),
            ("XDG_RUNTIME_DIR", "/tmp/work/runtime"),
        ]
    );
    assert!(weston_config().starts_with("[core]\nidle-time=0\n"));
    assert!(portal_config().contains("org.freedesktop.impl.portal.Secret=gnome-keyring"));
}

#[test]
fn the_display_is_named_in_the_environment() {
    let env = isolated_flatpak_env("/tmp/work");
    let shown = display_env("flatpak-smoke-1", &env);
    assert_eq!(shown[0].name, "WAYLAND_DISPLAY");
    assert_eq!(shown[0].value, "flatpak-smoke-1");
    assert_eq!(shown[1].name, "XDG_SESSION_TYPE");
    assert_eq!(shown[1].value, "wayland");
    assert_eq!(shown.len(), env.len() + 2);
    assert_eq!(shown[6].value, "/tmp/work/runtime");
    assert_eq!(env_value(&env, "XDG_RUNTIME_DIR"), Some("/tmp/work/runtime".to_string()));
    assert_eq!(env_value(&env, "HOME"), None);
}

#[test]
fn unfinished_installations_name_no_app() {
    let (app_ref, error) = finish_installation(Installation::Bundle).unwrap_err();
    assert_eq!(app_ref, None);
    assert_eq!(error.message, "installation did not finish");
    assert_eq!(
        finish_installation(Installation::Installed { app_ref: "a".to_string() }).unwrap(),
        "a"
    );
    let listed = Installation::Listed { refs: vec!["a".to_string(), "b".to_string()] };
    let (_, error) = finish_installation(listed).unwrap_err();
    assert_eq!(error.reason, FailureReason::InternalError);
}

fn installed_run() -> Verification {
    let run = Verification::new(Artifact::bundle("app.flatpak"));
    let run = run.advance(VerifyEvent::Tools { missing: Vec::new() }, 1);
    let installation =
        Installation::Listed { refs: vec!["org.example.App/x86_64/stable".to_string()] };
    run.advance(VerifyEvent::Installed { installation, took_ms: 1200 }, 2)
}

fn result_of(run: Verification) -> (RunResult, Option<String>) {
    match run {
        Verification::Done { result, complaint } => (result, complaint),
        other => panic!("unexpected {other:?}"),
    }
}

#[test]
fn good_runs_pass() {
    let run = installed_run().advance(
        VerifyEvent::Elapsed {
            elapsed: Duration::from_secs(2),
            overall_timeout: Duration::from_secs(60),
        },
        3,
    );
    let success = SessionSuccess {
        screenshot_paths: vec!["screenshots/000-window-visible.png".to_string()],
        launch_to_window_ms: 2400,
    };
    let (result, complaint) =
        result_of(run.advance(VerifyEvent::Session { result: Ok(success) }, 4100));
    assert!(result.is_passed());
    assert_eq!(complaint, None);
    assert_eq!(result.app_ref.as_deref(), Some("app/org.example.App/x86_64/stable"));
    assert_eq!(
        result.timings_ms,
        Timings { install: Some(1200), launch_to_window: Some(2400), total: 4100 }
    );
    assert_eq!(result.screenshots, vec!["screenshots/000-window-visible.png"]);
}

#[test]
fn sessions_that_fail_keep_their_pictures() {
    let run = installed_run().advance(
        VerifyEvent::Elapsed {
            elapsed: Duration::from_secs(2),
            overall_timeout: Duration::from_secs(60),
        },
        3,
    );
    let error = SessionError::new(FailureReason::WindowTimeout, "no window".to_string())
        .with_screenshots(vec!["logs/last-candidate.png".to_string()]);
    let (result, complaint) =
        result_of(run.advance(VerifyEvent::Session { result: Err(error) }, 9));
    assert!(!result.is_passed());
    assert_eq!(complaint.as_deref(), Some("verification failed: no window"));
    assert_eq!(result.screenshots, vec!["logs/last-candidate.png"]);
    assert_eq!(result.failure.unwrap().reason, FailureReason::WindowTimeout);
    assert_eq!(result.timings_ms.install, Some(1200));
    assert_eq!(result.timings_ms.launch_to_window, None);
}

#[test]
fn runs_stop_where_they_fail() {
    let run = Verification::new(Artifact::bundle("app.flatpak"));
    let missing = vec!["weston".to_string()];
    let (result, _) = result_of(run.advance(VerifyEvent::Tools { missing }, 5));
    assert_eq!(result.app_ref, None);
    assert_eq!(result.failure.unwrap().message, "missing required tool(s): weston");

    let run = Verification::new(Artifact::repo("repo"))
        .advance(VerifyEvent::Tools { missing: Vec::new() }, 1);
    let installation = Installation::repo("org.example.App", false)
        .advance(Err("no time".to_string()));
    let (result, _) =
        result_of(run.advance(VerifyEvent::Installed { installation, took_ms: 7 }, 8));
    assert_eq!(result.app_ref.as_deref(), Some("org.example.App"));
    assert_eq!(result.timings_ms.install, Some(7));
    assert_eq!(result.failure.unwrap().reason, FailureReason::InstallFailed);

    let late = VerifyEvent::Elapsed {
        elapsed: Duration::from_secs(60),
        overall_timeout: Duration::from_secs(60),
    };
    let (result, _) = result_of(installed_run().advance(late, 8));
    assert_eq!(
        result.failure.unwrap().message,
        "overall timeout elapsed before app launch"
    );
}
