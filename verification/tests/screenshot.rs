use flatpak_smoke::capture::FrameObservation;
use flatpak_smoke::cli::{ScreenshotArgs, ScreenshotBundleArgs, ScreenshotRepoArgs};
use flatpak_smoke::command::CommandOutput;
use flatpak_smoke::installer::Installation;
use flatpak_smoke::output::OutputLayout;
use flatpak_smoke::process::BudgetError;
use flatpak_smoke::result::{ArtifactKind, FailureReason, Timings};
use flatpak_smoke::screenshot::app_ref::AppRef;
use flatpak_smoke::screenshot::desktop::{Input, Rect, Scale, Window};
use flatpak_smoke::screenshot::gnome::{
    check_processes, keyring_args, launch, names_instance, required_capture_tools, session_args,
    unlock_args, unlocked, AppState, Dependencies, Startup,
};
use flatpak_smoke::screenshot::helper::{
    answered, helper_timeout, ping, reply, result_json, Ping, Request,
};
use flatpak_smoke::screenshot::images::{
    content_region, describe_args, measure_args, parse_size, ImageInfo, Inspection, Reading, Region,
};
use flatpak_smoke::screenshot::manifest::Manifest;
use flatpak_smoke::screenshot::recipe::{
    key_values, Action, Capture, Launch, RawStep, Recipe, Selection, Setup, SetupFile, Step,
};
use flatpak_smoke::screenshot::recipe;
use flatpak_smoke::screenshot::run::{
    bundle, capture_deadline, check_admission, doctor, repo, CaptureEvent, CaptureRun,
    CaptureStage, Source,
};
use flatpak_smoke::screenshot::setup::{
    check_settings, copy, expand, launch_args, seeding_error, CopyStep, SourceKind,
};
use flatpak_smoke::screenshot::workflow::{
    capture_file_name, check_snapshot, click_input, select, step_log, windows_of, Choice, Phase,
    WindowEvent, WindowStart, WorkEvent, WorkflowRun,
};
use flatpak_smoke::screenshot::workspace::{capture_environment, home_directories, Origin};
use flatpak_smoke::screenshot::{images, required_run, CaptureError, ToolRun};
use flatpak_smoke::session::ProcessState;
use flatpak_smoke::time::{Duration, Instant};

fn at(millis: u64) -> Instant {
    Instant { nanos: 1_000_000 * u128::from(millis) }
}

fn ran(stdout: &str) -> Result<ToolRun, String> {
    Ok(ToolRun { success: true, stdout: stdout.as_bytes().to_vec(), stderr: Vec::new() })
}

fn broke(stderr: &str) -> Result<ToolRun, String> {
    Ok(ToolRun { success: false, stdout: Vec::new(), stderr: stderr.as_bytes().to_vec() })
}

fn plain(message: &str) -> CaptureError {
    CaptureError::plain(message.to_string())
}

fn raw() -> RawStep {
    RawStep {
        timeout: None,
        capture: None,
        click_text: None,
        type_text: None,
        key: None,
        wait_text: None,
        select_window: None,
    }
}

fn asked(name: &str, caption: &str) -> Option<Capture> {
    Some(Capture { name: name.to_string(), caption: caption.to_string() })
}

fn capturing(name: &str) -> Step {
    Step::try_from(RawStep { capture: asked(name, "Main view"), ..raw() }).unwrap()
}

fn recipe_of(steps: Vec<Step>) -> Recipe {
    Recipe {
        version: 1,
        desktop: "gnome".to_string(),
        language: "en".to_string(),
        window: recipe::Window::default(),
        setup: Setup { files: Vec::new() },
        launch: Launch { args: Vec::new() },
        steps,
    }
}

fn window(id: u64, title: &str) -> Window {
    Window {
        id,
        title: title.to_string(),
        app_id: "org.example.App".to_string(),
        transient: false,
        frame: Rect { x: 20, y: 30, width: 800, height: 600 },
        buffer: Rect { x: 10, y: 20, width: 820, height: 620 },
        scale: Scale { one: true, written: "1".to_string() },
    }
}

fn shown() -> ImageInfo {
    ImageInfo { width: 820, height: 620, has_content: true }
}

#[test]
fn refs_are_read_and_written() {
    let app = AppRef::parse("app/org.example.App/x86_64/stable").unwrap();
    assert_eq!((app.id(), app.arch(), app.branch()), ("org.example.App", "x86_64", "stable"));
    assert_eq!(app.to_string(), "app/org.example.App/x86_64/stable");
    let listed = AppRef::from_installed("org.example.App/x86_64/stable").unwrap();
    assert_eq!(listed.to_string(), "app/org.example.App/x86_64/stable");
    for (written, message) in [
        ("org.example.App", "expected app/ID/ARCH/BRANCH ref"),
        ("runtime/org.example.App/x86_64/stable", "expected app/ID/ARCH/BRANCH ref"),
        ("app/org.example.App/x86_64/stable/x", "expected app/ID/ARCH/BRANCH ref"),
        ("app/org.example.App//stable", "expected app/ID/ARCH/BRANCH ref"),
        ("app/org.example.App/-x/stable", "expected app/ID/ARCH/BRANCH ref"),
        ("app/org.example.App/x86_64/..", "expected app/ID/ARCH/BRANCH ref"),
        ("app/org.App/x86_64/stable", "invalid application ID"),
        ("app/org..App/x86_64/stable", "invalid application ID"),
    ] {
        assert_eq!(AppRef::parse(written).unwrap_err(), message, "{written}");
    }
}

#[test]
fn invalid_recipe_is_rejected_before_artifact_installation() {
    let recipe = Recipe { version: 99, ..recipe_of(Vec::new()) };
    assert!(recipe.check().unwrap_err().contains("unsupported recipe version"));
    assert!(refusal(recipe).contains("unsupported recipe version"));
}

#[test]
fn duplicate_capture_names_are_rejected_before_preparing_output() {
    let steps = ["Browse items", "Search items"]
        .into_iter()
        .map(|caption| {
            Step::try_from(RawStep { capture: asked("overview", caption), ..raw() }).unwrap()
        })
        .collect();
    let recipe = recipe_of(steps);
    assert!(recipe.check().unwrap_err().contains("duplicate capture name"));
    assert!(refusal(recipe).contains("duplicate capture name"));
}

#[test]
fn malformed_recipes_fail_before_any_output_is_created() {
    let one = || vec![capturing("one")];
    let error = refusal(Recipe { desktop: "kde".to_string(), ..recipe_of(one()) });
    assert!(error.contains("unsupported desktop"), "{error}");

    let wide = recipe::Window { width: 1001, ..recipe::Window::default() };
    let error = refusal(Recipe { window: wide, ..recipe_of(one()) });
    assert!(error.contains("1000x700"), "{error}");

    let step = Step::try_from(RawStep { capture: asked("../outside", "Main view"), ..raw() });
    let error = step.unwrap_err();
    assert!(error.contains("capture name"), "{error}");

    let step = Step::try_from(RawStep { capture: asked("one", "Main view."), ..raw() });
    let error = step.unwrap_err();
    assert!(error.contains("trailing full stop"), "{error}");

    let error = Step::try_from(RawStep {
        capture: asked("one", "Main view"),
        key: Some("Return".to_string()),
        ..raw()
    })
    .unwrap_err();
    assert!(error.contains("exactly one action"), "{error}");

    let error =
        Step::try_from(RawStep { key: Some("Ctrl+Bogus".to_string()), ..raw() }).unwrap_err();
    assert!(error.contains("unsupported key"), "{error}");

    let error = Step::try_from(RawStep {
        wait_text: Some("Ready".to_string()),
        timeout: Some("18446744073709551615m".to_string()),
        ..raw()
    })
    .unwrap_err();
    assert!(error.contains("duration is too large"), "{error}");
}

#[test]
fn captures_need_a_recipe_in_order_and_a_build() {
    let missing = "artifact 'fixture.flatpak' does not exist";
    assert_eq!(refusal(recipe_of(vec![capturing("one")])), missing);
    let good = recipe_of(vec![capturing("one")]);
    assert_eq!(check_admission(&good, "fixture.flatpak", true), Ok(()));
    let run = admitted(good);
    assert!(run.recipe.is_some());

    let faulty = || Step {
        timeout: None,
        action: Action::Capture(Capture {
            name: "../outside".to_string(),
            caption: "Main view".to_string(),
        }),
    };
    let told = "capture name must contain only letters, digits, '-' or '_'";
    assert_eq!(refusal(recipe_of(vec![capturing("one"), faulty()])), told);
    let both = Recipe { version: 99, ..recipe_of(vec![faulty()]) };
    assert_eq!(refusal(both), told);
}

#[test]
fn good_recipes_are_accepted() {
    let steps = vec![
        Step::try_from(RawStep {
            wait_text: Some("Ready".to_string()),
            timeout: Some("3s".to_string()),
            ..raw()
        })
        .unwrap(),
        capturing("one"),
        capturing("two"),
    ];
    assert_eq!(steps[0].timeout, Some(Duration::from_secs(3)));
    assert_eq!(recipe_of(steps).check(), Ok(()));
    assert_eq!(recipe::Window::default().width, 900);
    assert_eq!(recipe::Window::default().height, 600);
}

#[test]
fn recipes_are_refused_for_a_reason() {
    let told = |recipe: Recipe| recipe.check().unwrap_err();
    assert_eq!(told(recipe_of(Vec::new())), "recipe must contain at least one capture");
    assert_eq!(
        told(Recipe { language: "de".to_string(), ..recipe_of(vec![capturing("one")]) }),
        "unsupported screenshot language 'de'"
    );
    let untitled = recipe::Window { title: Some(" ".to_string()), ..recipe::Window::default() };
    assert_eq!(
        told(Recipe { window: untitled, ..recipe_of(vec![capturing("one")]) }),
        "window title must not be empty or contain NUL"
    );
    for (raw, message) in [
        (
            RawStep { click_text: Some(" ".to_string()), ..raw() },
            "click text must not be empty or contain NUL",
        ),
        (
            RawStep { wait_text: Some("a\0".to_string()), ..raw() },
            "wait text must not be empty or contain NUL",
        ),
        (
            RawStep { type_text: Some(String::new()), ..raw() },
            "type_text must contain nonempty text without NUL",
        ),
        (
            RawStep {
                select_window: Some(Selection { title: String::new() }),
                ..raw()
            },
            "window title must not be empty or contain NUL",
        ),
        (
            RawStep { capture: asked("one", "two\nlines"), ..raw() },
            "caption must be a single line without a trailing full stop",
        ),
    ] {
        assert_eq!(Step::try_from(raw).unwrap_err(), message);
    }
}

#[test]
fn chords_become_symbols() {
    assert_eq!(key_values("Return").unwrap(), vec![0xff0d]);
    assert_eq!(key_values("Ctrl+Shift+a").unwrap(), vec![0xffe3, 0xffe1, 'a' as u32]);
    assert_eq!(key_values("Alt+F12").unwrap(), vec![0xffe9, 0xffc9]);
    assert_eq!(key_values("Super+plus").unwrap(), vec![0xffeb, 0x2b]);
    assert_eq!(key_values("7").unwrap(), vec!['7' as u32]);
    assert_eq!(key_values("Hyper+a").unwrap_err(), "unsupported key modifier 'Hyper'");
    assert_eq!(key_values("Ctrl+Ctrl+a").unwrap_err(), "duplicate key modifier 'Ctrl'");
    assert_eq!(key_values("Bogus").unwrap_err(), "unsupported key 'Bogus'");
    assert!(key_values("").is_err());
    match Step::try_from(RawStep { key: Some("Tab".to_string()), ..raw() }).unwrap().action {
        Action::Key(keys) => assert_eq!(keys, vec![0xff09]),
        other => panic!("unexpected {other:?}"),
    }
}

#[test]
fn screenshot_manifest_is_protected_without_force() {
    let error = OutputLayout::prepare("output", true, true, false).unwrap_err();
    assert!(error.contains("--force"));
    assert_eq!(OutputLayout::new("output").screenshots_json, "output/screenshots.json");
}

#[test]
fn recipe_seeds_a_fresh_profile_and_resolves_launch_arguments() {
    let args = [
        "--open",
        "${APP_DATA}/example project/nested/document.txt",
        "${APP_CONFIG}/settings.ini",
        "$(literal)",
    ]
    .map(str::to_string)
    .to_vec();
    let profile = "/tmp/home/.var/app/org.example.Test";
    assert_eq!(
        launch_args(&args, Some(profile)).unwrap(),
        vec![
            "--open".to_string(),
            format!("{profile}/data/example project/nested/document.txt"),
            format!("{profile}/config/settings.ini"),
            "$(literal)".to_string()
        ]
    );
}

#[test]
fn setup_rejects_links_missing_sources_conflicts_and_expired_deadlines() {
    let left = || Ok(Duration::from_secs(5));
    let error = copy(left(), Some("/fixtures/link"), SourceKind::File).unwrap_err();
    assert!(error.contains("symlink"));
    let error = copy(left(), Some("/fixtures/file-link"), SourceKind::File).unwrap_err();
    assert!(error.contains("symlink"));
    let error = copy(left(), None, SourceKind::Other).unwrap_err();
    assert!(error.contains("regular file or directory"));
    let error = copy(Err(BudgetError::Elapsed), None, SourceKind::Directory).unwrap_err();
    assert!(error.contains("deadline"));
    assert_eq!(copy(left(), None, SourceKind::Directory), Ok(CopyStep::Directory));
    assert_eq!(copy(left(), None, SourceKind::File), Ok(CopyStep::File));
    assert_eq!(
        seeding_error("data/file", "real/file", "exists"),
        "seeding data/file from real/file: exists"
    );
}

fn with_file(source: &str, destination: &str) -> Recipe {
    let file = SetupFile { source: source.to_string(), destination: destination.to_string() };
    Recipe { setup: Setup { files: vec![file] }, ..recipe_of(vec![capturing("main")]) }
}

fn with_arg(arg: &str) -> Recipe {
    Recipe { launch: Launch { args: vec![arg.to_string()] }, ..recipe_of(vec![capturing("main")]) }
}

#[test]
fn invalid_setup_paths_and_launch_placeholders_are_rejected_before_installation() {
    for (recipe, message) in [
        (with_file("../sample", "data/sample"), "source must"),
        (with_file("nested/../../sample", "data/sample"), "source must"),
        (with_file("/etc/passwd", "data/sample"), "source must"),
        (with_file("", "data/sample"), "source must"),
        (with_file("sample", "../outside"), "destination must"),
        (with_file("sample", "/data/file"), "destination must"),
        (with_file("sample", "data/../../outside"), "destination must"),
        (with_file("sample", "cache/file"), "destination must"),
        (with_arg("${HOME}/document"), "unsupported launch placeholder"),
        (with_arg("${APP_DATA"), "unterminated launch placeholder"),
        (with_arg("bad\0argument"), "NUL"),
    ] {
        assert_eq!(recipe.check(), Ok(()));
        let run = admitted(recipe).advance(CaptureEvent::Output);
        let result = run.conclude(1, false);
        assert_eq!(result.status.name(), "failed");
        let failure = result.failure.unwrap();
        assert!(failure.message.contains(message), "{}", failure.message);
        assert_eq!(failure.reason, FailureReason::InternalError);
        assert!(run.manifest.captures.is_empty());
        assert_eq!(run.manifest.schema_version, 1);
        assert_eq!(run.manifest.failed_step_index, None);
        assert!(result.app_ref.is_none());
    }
}

#[test]
fn settings_in_order_are_accepted() {
    assert_eq!(check_settings(&with_file("project", "data/example project")), Ok(()));
    assert_eq!(check_settings(&with_file("a/./b", "config/settings.ini")), Ok(()));
    assert_eq!(check_settings(&with_arg("--open=${APP_DATA}/x")), Ok(()));
    assert!(check_settings(&with_file("sample", "data")).is_err());
    assert_eq!(expand("a${APP_DATA}b${APP_CONFIG}", Some("/p")).unwrap(), "a/p/datab/p/config");
    assert_eq!(expand("$x {y}", None).unwrap(), "$x {y}");
    for argument in ["", "a", "${APP_DATA}", "${HOME}", "${APP_DATA", "a\0"] {
        let first = expand(argument, Some("/one"));
        let second = expand(argument, Some("/two/three"));
        assert_eq!(first.is_ok(), second.is_ok(), "{argument}");
    }
    assert_eq!(expand("${APP_DATA}", None).unwrap_err(), "app profile path is not UTF-8");
    for (first, second) in [("a${APP_DATA}", "/b${APP_CONFIG}"), ("", "${HOME}"), ("$", "x")] {
        let both = expand(&format!("{first}{second}"), Some("/p"));
        let front = expand(first, Some("/p")).unwrap();
        assert_eq!(both, expand(second, Some("/p")).map(|rest| format!("{front}{rest}")));
    }
    assert_eq!(expand("${APP_DATA}", Some("/p")).unwrap(), "/p/data");
    assert_eq!(expand("{APP_DATA}", Some("/p")).unwrap(), "{APP_DATA}");
}

fn args() -> ScreenshotArgs {
    ScreenshotArgs {
        recipe: "recipe.yml".to_string(),
        output: "output".to_string(),
        force: false,
        window_timeout: Duration::from_secs(30),
        display_timeout: Duration::from_secs(30),
        screenshot_timeout: Duration::from_secs(10),
        overall_timeout: Duration::from_secs(300),
        allow_network_remotes: false,
    }
}

fn started() -> CaptureRun {
    bundle(ScreenshotBundleArgs { bundle: "fixture.flatpak".to_string(), common: args() }).1
}

fn admitted(recipe: Recipe) -> CaptureRun {
    let run = started().advance(CaptureEvent::Admission { recipe, exists: true });
    assert!(matches!(run.stage, CaptureStage::Output));
    run
}

/// What a capture is refused for whose build is not there either.
fn refusal(recipe: Recipe) -> String {
    let told = check_admission(&recipe, "fixture.flatpak", false).unwrap_err();
    let run = started().advance(CaptureEvent::Admission { recipe, exists: false });
    assert!(run.manifest.captures.is_empty());
    match run.stage {
        CaptureStage::Refused { message } => {
            assert_eq!(message, told);
            message
        }
        other => panic!("unexpected {other:?}"),
    }
}

#[test]
fn missing_desktop_dependencies_produce_both_failure_manifests() {
    let missing = Dependencies::tools_checked(&vec!["gnome-shell".to_string()]);
    let run = admitted(recipe_of(vec![capturing("one")]))
        .advance(CaptureEvent::Output)
        .advance(CaptureEvent::Dependencies(missing));
    let result = run.conclude(1, false);
    assert_eq!(result.status.name(), "failed");
    let failure = result.failure.unwrap();
    assert_eq!(failure.reason.name(), "dependency_failed");
    assert_eq!(failure.message, "missing screenshot tools: gnome-shell");
    assert_eq!(run.manifest.schema_version, 1);
    assert_eq!(run.manifest.failed_step_index, None);
    assert!(run.manifest.captures.is_empty());
    assert!(result.app_ref.is_none());
}

fn assert_begins(run: &CaptureRun) {
    assert!(matches!(run.stage, CaptureStage::Admission));
    let manifest = &run.manifest;
    assert_eq!(manifest.schema_version, 1);
    assert_eq!((manifest.desktop.as_str(), manifest.language.as_str()), ("gnome", "en"));
    assert_eq!((manifest.scale, manifest.recipe_version), (1, 1));
    assert_eq!(manifest.app_ref, None);
    assert_eq!(manifest.desktop_version, None);
    assert_eq!(manifest.failed_step_index, None);
    assert!(manifest.captures.is_empty());
    assert_eq!(run.timings, Timings { install: None, launch_to_window: None, total: 0 });
}

#[test]
fn captures_begin_with_their_source() {
    let (common, run) =
        bundle(ScreenshotBundleArgs { bundle: "fixture.flatpak".to_string(), common: args() });
    assert_eq!(common.output, "output");
    assert_eq!(run.artifact.kind, ArtifactKind::Bundle);
    assert_eq!(run.artifact.path, "fixture.flatpak");
    assert_begins(&run);
    assert!(matches!(run.source, Source::Bundle(path) if path == "fixture.flatpak"));
    let asked = |app_ref: &str| {
        repo(ScreenshotRepoArgs {
            repo: "repo".to_string(),
            app_ref: app_ref.to_string(),
            common: args(),
        })
    };
    let (_, run) = asked("app/org.example.App/x86_64/stable").unwrap();
    assert_eq!(run.artifact.kind, ArtifactKind::Repo);
    assert_begins(&run);
    match run.source {
        Source::Repo(path, app_ref) => {
            assert_eq!(path, "repo");
            assert_eq!(app_ref.to_string(), "app/org.example.App/x86_64/stable");
        }
        other => panic!("unexpected {other:?}"),
    }
    assert_eq!(asked("org.example.App").unwrap_err(), "expected app/ID/ARCH/BRANCH ref");
    assert_eq!(
        doctor("48.2"),
        "flatpak-smoke doctor: screenshot tools and native helper ok (48.2)"
    );
    assert_eq!(capture_deadline(at(5), Duration::from_millis(10)), Ok(at(15)));
    assert_eq!(
        capture_deadline(at(5), Duration { nanos: u128::MAX }),
        Err("overall timeout is too large".to_string())
    );
}

fn met() -> Dependencies {
    Dependencies::Met { version: "GNOME Shell 48.2".to_string() }
}

fn installed(refs: &[&str]) -> CaptureRun {
    let refs = refs.iter().map(|one| one.to_string()).collect();
    admitted(recipe_of(vec![capturing("one")]))
        .advance(CaptureEvent::Output)
        .advance(CaptureEvent::Dependencies(met()))
        .advance(CaptureEvent::Workspace(Ok(())))
        .advance(CaptureEvent::Installed {
            installation: Installation::Listed { refs },
            took_ms: 1200,
        })
}

fn launched() -> CaptureRun {
    installed(&["org.example.App/x86_64/stable"])
        .advance(CaptureEvent::Profile(Ok(())))
        .advance(CaptureEvent::Desktop(Ok("GNOME Shell 48.2".to_string())))
        .advance(CaptureEvent::Launched(Ok(())))
}

fn with_window() -> CaptureRun {
    let run = launched().advance(CaptureEvent::Window { result: Ok(7), took_ms: 2400 });
    match &run.stage {
        CaptureStage::Recipe { work } => {
            assert_eq!(work.selected, 7);
            assert_eq!(work.recipe.steps.len(), 1);
        }
        other => panic!("unexpected {other:?}"),
    }
    run
}

fn followed() -> CaptureRun {
    let mut run = with_window();
    for event in course() {
        run = run.advance(CaptureEvent::Work(event));
    }
    assert!(matches!(run.stage, CaptureStage::Health));
    run
}

#[test]
fn captures_pass_with_their_screenshots() {
    let run = followed().advance(CaptureEvent::Health(Ok(())));
    let result = run.conclude(4100, true);
    assert!(result.is_passed());
    assert_eq!(result.app_ref.as_deref(), Some("app/org.example.App/x86_64/stable"));
    assert_eq!(result.screenshots, vec!["screenshots/000-one.png"]);
    assert_eq!(
        result.timings_ms,
        Timings { install: Some(1200), launch_to_window: Some(2400), total: 4100 }
    );
    assert_eq!(run.manifest.desktop_version.as_deref(), Some("GNOME Shell 48.2"));
    assert_eq!(run.manifest.failed_step_index, None);
    assert_eq!(run.manifest.schema_version, 1);
    assert_eq!(run.manifest.captures.len(), 1);
}

#[test]
fn captures_blame_the_step_that_fails() {
    let mut run = with_window().advance(CaptureEvent::Work(WorkEvent::Begun(Ok(()))));
    assert_eq!(run.manifest.failed_step_index, None);
    for event in [
        WorkEvent::Snapshot { result: Err(plain("no picture")), now: at(0) },
        WorkEvent::Health(Ok(())),
    ] {
        run = run.advance(CaptureEvent::Work(event));
    }
    assert_eq!(run.manifest.failed_step_index, Some(0));
    let failure = run.conclude(1, false).failure.unwrap();
    assert_eq!(failure.reason, FailureReason::ScreenshotFailed);
    assert_eq!(failure.message, "recipe step 0: no picture");
}

#[test]
fn captures_fail_where_something_goes_wrong() {
    let told = |run: &CaptureRun| {
        let failure = run.conclude(1, false).failure.unwrap();
        (failure.reason, failure.message)
    };
    let two = installed(&["a.b.C/x/y", "d.e.F/x/y"]);
    assert_eq!(
        told(&two),
        (
            FailureReason::InternalError,
            "bundle must install exactly one application".to_string()
        )
    );
    assert_eq!(two.conclude(1, false).timings_ms.install, Some(1200));
    assert_eq!(two.conclude(1, false).app_ref, None);

    let failed = Installation::Bundle.advance(Ok(CommandOutput {
        success: false,
        status: "exit status: 1".to_string(),
        stdout: String::new(),
        stderr: "broken".to_string(),
    }));
    let run = admitted(recipe_of(vec![capturing("one")]))
        .advance(CaptureEvent::Output)
        .advance(CaptureEvent::Dependencies(met()))
        .advance(CaptureEvent::Workspace(Ok(())))
        .advance(CaptureEvent::Installed { installation: failed, took_ms: 3 });
    assert_eq!(
        told(&run),
        (FailureReason::InstallFailed, "flatpak install failed: broken".to_string())
    );

    let prepared = || {
        installed(&["org.example.App/x86_64/stable"]).advance(CaptureEvent::Profile(Ok(())))
    };
    let run = prepared().advance(CaptureEvent::Desktop(Err(plain("no session"))));
    assert_eq!(
        told(&run),
        (FailureReason::DisplayStartFailed, "no session".to_string())
    );
    let known =
        CaptureError::failure(FailureReason::DisplayExited, "the shell is gone".to_string());
    let run = prepared().advance(CaptureEvent::Desktop(Err(known)));
    assert_eq!(told(&run).0, FailureReason::DisplayExited);

    let run = launched().advance(CaptureEvent::Window {
        result: Err(CaptureError::failure(FailureReason::WindowTimeout, "none".to_string())),
        took_ms: 9,
    });
    assert_eq!(told(&run).0, FailureReason::WindowTimeout);
    let result = run.conclude(7, true);
    assert_eq!(result.timings_ms.launch_to_window, None);
    assert_eq!(result.screenshots, vec!["logs/last-candidate.png"]);
    assert_eq!(result.app_ref.as_deref(), Some("app/org.example.App/x86_64/stable"));
}

#[test]
fn later_failures_keep_the_captures() {
    let run = followed();
    let exit = CaptureError::failure(FailureReason::EarlyExit, "gone".to_string());
    let run = run.advance(CaptureEvent::Health(Err(exit)));
    let result = run.conclude(1, false);
    assert!(!result.is_passed());
    assert_eq!(result.screenshots, vec!["screenshots/000-one.png"]);
}

fn snapshot(millis: u64) -> WorkEvent {
    WorkEvent::Snapshot { result: Ok((window(7, "Main"), shown())), now: at(millis) }
}

/// What comes of a recipe with one capture.
fn course() -> Vec<WorkEvent> {
    vec![
        WorkEvent::Begun(Ok(())),
        snapshot(0),
        WorkEvent::Slept(Ok(())),
        snapshot(400),
        WorkEvent::Slept(Ok(())),
        snapshot(800),
        WorkEvent::Saved(Ok(())),
        WorkEvent::Health(Ok(())),
        WorkEvent::Budget(Ok(Duration::from_secs(1))),
        WorkEvent::Windows(Ok(Vec::new())),
        WorkEvent::Health(Ok(())),
    ]
}

fn finish_work(mut run: WorkflowRun) -> WorkflowRun {
    for event in course() {
        if matches!(run.phase, Phase::Save { .. }) {
            assert_eq!(run.next_file().as_deref(), Some("000-one.png"));
        }
        run = run.advance(event);
    }
    run
}

#[test]
fn finished_recipes_record_their_captures() {
    let steps = vec![capturing("one")];
    let run = finish_work(WorkflowRun::new(recipe_of(steps), 7, &Manifest::new()));
    assert!(matches!(run.phase, Phase::Finished));
    assert_eq!(run.manifest.failed_step_index, None);
    let taken = &run.manifest.captures[0];
    assert_eq!(taken.name, "one");
    assert_eq!(taken.path, "screenshots/000-one.png");
    assert_eq!(taken.caption, "Main view");
    assert_eq!(taken.language, "en");
    assert_eq!((taken.width, taken.height), (820, 620));
    assert_eq!((taken.window_width, taken.window_height), (800, 600));
    assert_eq!(capture_file_name(12, "two"), "012-two.png");
    assert_eq!(step_log(3), "recipe step 3");
}

#[test]
fn failures_after_the_steps_blame_none_and_keep_captures() {
    let mut run = WorkflowRun::new(recipe_of(vec![capturing("one")]), 7, &Manifest::new())
        .advance(WorkEvent::Begun(Ok(())));
    assert_eq!(run.manifest.failed_step_index, Some(0));
    for millis in [0, 400] {
        run = run.advance(snapshot(millis)).advance(WorkEvent::Slept(Ok(())));
    }
    let run = run
        .advance(snapshot(800))
        .advance(WorkEvent::Saved(Ok(())))
        .advance(WorkEvent::Health(Ok(())))
        .advance(WorkEvent::Budget(Ok(Duration::from_secs(1))))
        .advance(WorkEvent::Windows(Err(plain("no reply"))));
    assert_eq!(run.manifest.failed_step_index, None);
    assert_eq!(run.manifest.captures.len(), 1);
    assert_eq!(
        told(run),
        (Some(FailureReason::ScreenshotFailed), "final helper check: no reply".to_string())
    );
}

#[test]
fn saving_can_fail() {
    let mut run = WorkflowRun::new(recipe_of(vec![capturing("one")]), 7, &Manifest::new())
        .advance(WorkEvent::Begun(Ok(())));
    for millis in [0, 400] {
        run = run.advance(snapshot(millis)).advance(WorkEvent::Slept(Ok(())));
    }
    let run = run
        .advance(snapshot(800))
        .advance(WorkEvent::Saved(Err("disk full".to_string())))
        .advance(WorkEvent::Health(Ok(())));
    assert_eq!(run.manifest.failed_step_index, Some(0));
    assert!(run.manifest.captures.is_empty());
    assert_eq!(
        told(run),
        (Some(FailureReason::ScreenshotFailed), "recipe step 0: disk full".to_string())
    );
}

fn step(raw: RawStep) -> WorkflowRun {
    let steps = vec![Step::try_from(raw).unwrap(), capturing("one")];
    WorkflowRun::new(recipe_of(steps), 7, &Manifest::new()).advance(WorkEvent::Begun(Ok(())))
}

const TABLE: &str = "level\n5\t1\t1\t1\t1\t1\t100\t50\t40\t20\t96\tReady\n";

fn looked(raw: RawStep, table: &str) -> WorkflowRun {
    step(raw).advance(snapshot(0)).advance(WorkEvent::Text(Ok(vec![table.to_string()])))
}

fn told(run: WorkflowRun) -> (Option<FailureReason>, String) {
    match run.phase {
        Phase::Failed { error } => (error.reason, error.message),
        other => panic!("unexpected {other:?}"),
    }
}

#[test]
fn texts_are_waited_for() {
    let wait = || RawStep { wait_text: Some("Ready".to_string()), ..raw() };
    let run = looked(wait(), TABLE);
    assert!(matches!(run.phase, Phase::Check));
    let run = run.advance(WorkEvent::Health(Ok(())));
    assert_eq!(run.index, 1);
    assert_eq!(run.manifest.failed_step_index, Some(1));
    let run = looked(wait(), "level\n");
    assert!(matches!(run.phase, Phase::LookWait));
    let run = run
        .advance(WorkEvent::Slept(Err("deadline elapsed".to_string())))
        .advance(WorkEvent::Health(Ok(())));
    assert_eq!(run.manifest.failed_step_index, Some(0));
    assert_eq!(
        told(run),
        (
            Some(FailureReason::ScreenshotFailed),
            "recipe step 0: waiting for text 'Ready': deadline elapsed".to_string()
        )
    );
}

#[test]
fn labels_are_clicked_where_they_stand_once() {
    let click = || RawStep { click_text: Some("Ready".to_string()), ..raw() };
    let run = looked(click(), TABLE).advance(WorkEvent::Logged(Ok(())));
    match &run.phase {
        Phase::Act { input: Input::Click { x, y } } => assert_eq!((*x, *y), (120, 60)),
        other => panic!("unexpected {other:?}"),
    }
    let run = run.advance(WorkEvent::Done(Ok(())));
    assert!(matches!(run.phase, Phase::Check));
    let run = looked(click(), "level\n")
        .advance(WorkEvent::Logged(Ok(())))
        .advance(WorkEvent::Health(Ok(())));
    assert_eq!(
        told(run).1,
        "recipe step 0: click text 'Ready' matched 0 locations; expected exactly one"
    );
    let far = "level\n5\t1\t1\t1\t1\t1\t2147483647\t50\t40\t20\t96\tReady\n";
    assert!(matches!(looked(click(), far).phase, Phase::Unfit));
}

#[test]
fn keys_and_texts_are_sent() {
    let run = step(RawStep { type_text: Some("hi".to_string()), ..raw() });
    assert!(matches!(&run.phase, Phase::Act { input: Input::Text(typed) } if typed == "hi"));
    let run = step(RawStep { key: Some("Ctrl+q".to_string()), ..raw() });
    match &run.phase {
        Phase::Act { input: Input::Key(keys) } => assert_eq!(keys, &vec![0xffe3, 'q' as u32]),
        other => panic!("unexpected {other:?}"),
    }
    let run = run
        .advance(WorkEvent::Done(Err(plain("helper is gone"))))
        .advance(WorkEvent::Health(Ok(())));
    assert_eq!(told(run).1, "recipe step 0: helper is gone");
    let exit = CaptureError::failure(FailureReason::EarlyExit, "app is gone".to_string());
    let run = step(RawStep { key: Some("q".to_string()), ..raw() })
        .advance(WorkEvent::Done(Err(plain("helper is gone"))))
        .advance(WorkEvent::Health(Err(exit)));
    assert_eq!(told(run), (Some(FailureReason::EarlyExit), "app is gone".to_string()));
}

#[test]
fn windows_are_chosen_by_title() {
    let pick = || RawStep {
        select_window: Some(Selection { title: "Preferences".to_string() }),
        ..raw()
    };
    let run = step(pick()).advance(WorkEvent::Windows(Ok(vec![window(7, "Main")])));
    assert!(matches!(run.phase, Phase::SelectWait));
    let run = run
        .advance(WorkEvent::Slept(Ok(())))
        .advance(WorkEvent::Windows(Ok(vec![window(7, "Main"), window(9, "Preferences")])));
    assert_eq!(run.selected, 9);
    let two = vec![window(8, "Preferences"), window(9, "Preferences")];
    let run = step(pick())
        .advance(WorkEvent::Windows(Ok(two)))
        .advance(WorkEvent::Health(Ok(())));
    assert_eq!(
        told(run).1,
        "recipe step 0: ambiguous window selection: 2 matching windows; specify a unique title"
    );
    let run = step(pick())
        .advance(WorkEvent::Windows(Ok(Vec::new())))
        .advance(WorkEvent::Slept(Err("deadline elapsed".to_string())))
        .advance(WorkEvent::Health(Ok(())));
    assert_eq!(
        told(run),
        (
            Some(FailureReason::WindowTimeout),
            "recipe step 0: waiting for app window Some(\"Preferences\"): deadline elapsed"
                .to_string()
        )
    );
}

#[test]
fn only_windows_of_the_app_count() {
    let other = Window { app_id: "org.example.Other".to_string(), ..window(1, "Other") };
    let mine = windows_of(vec![other, window(2, "Main")], "org.example.App");
    assert_eq!(mine.len(), 1);
    assert_eq!(mine[0].id, 2);
    assert_eq!(select(&mine, &None), Choice::Found(2));
    assert_eq!(select(&mine, &Some("Other".to_string())), Choice::Missing);
    let transient = Window { transient: true, ..window(3, "Dialog") };
    assert_eq!(select(&vec![window(2, "Main"), transient], &None), Choice::Found(2));
    assert_eq!(select(&vec![window(2, "Main"), window(3, "Main")], &None), Choice::Ambiguous(2));
}

#[test]
fn snapshots_are_checked() {
    assert!(check_snapshot(&window(1, "Main"), &shown()).is_ok());
    let scaled = Window {
        scale: Scale { one: false, written: "1.5".to_string() },
        ..window(1, "Main")
    };
    assert_eq!(
        check_snapshot(&scaled, &shown()).unwrap_err().message,
        "unsupported window scale 1.5; expected 1"
    );
    let wide =
        Window { frame: Rect { x: 0, y: 0, width: 1001, height: 600 }, ..window(1, "Main") };
    assert_eq!(
        check_snapshot(&wide, &shown()).unwrap_err().message,
        "window size 1001x600 exceeds 1000x700"
    );
    let small = ImageInfo { width: 819, ..shown() };
    assert_eq!(
        check_snapshot(&window(1, "Main"), &small).unwrap_err().message,
        "native image and window buffer dimensions differ"
    );
    assert!(click_input(&vec![(1640, 0)], &window(1, "Main"), "Log In").is_err());
    assert!(matches!(
        click_input(&vec![(1639, 0)], &window(1, "Main"), "Log In").unwrap(),
        Input::Click { x: 1639, y: 0 }
    ));
}

#[test]
fn first_windows_are_resized_and_watched() {
    let requested = recipe::Window { title: None, width: 800, height: 600 };
    let start = WindowStart::Select
        .advance(&requested, WindowEvent::Windows(Ok(Vec::new())), false)
        .advance(&requested, WindowEvent::Slept(Ok(())), false)
        .advance(&requested, WindowEvent::Windows(Ok(vec![window(7, "Main")])), false);
    assert!(matches!(start, WindowStart::Resize { id: 7 }));
    let mut start = start
        .advance(&requested, WindowEvent::Done(Ok(())), false)
        .advance(&requested, WindowEvent::Windows(Ok(vec![window(7, "Main")])), false);
    assert!(matches!(start, WindowStart::Observe { .. }));
    let seen = |millis| WindowEvent::Snapshot {
        result: Ok((window(7, "Main"), shown())),
        now: at(millis),
    };
    for millis in [0, 400] {
        start = start
            .advance(&requested, seen(millis), false)
            .advance(&requested, WindowEvent::Slept(Ok(())), false);
    }
    let start = start.advance(&requested, seen(800), false);
    let start = start.advance(&requested, WindowEvent::Health(Ok(())), false);
    assert!(matches!(start, WindowStart::Ready { id: 7 }));
}

#[test]
fn first_windows_fail_for_a_reason() {
    let requested = recipe::Window { title: None, width: 640, height: 480 };
    let end = |start: WindowStart, late| match start.advance(
        &requested,
        WindowEvent::Health(Ok(())),
        late,
    ) {
        WindowStart::Failed { error } => (error.reason, error.message),
        other => panic!("unexpected {other:?}"),
    };
    let none = WindowStart::SelectWait.advance(
        &requested,
        WindowEvent::Slept(Err("deadline elapsed".to_string())),
        true,
    );
    assert_eq!(
        end(none, true),
        (
            Some(FailureReason::WindowTimeout),
            "initial window did not become ready: waiting for app window None: deadline elapsed"
                .to_string()
        )
    );
    let sized = WindowStart::Size { id: 7 }
        .advance(&requested, WindowEvent::Windows(Ok(vec![window(7, "Main")])), false)
        .advance(&requested, WindowEvent::Slept(Err("x".to_string())), false);
    assert_eq!(
        end(sized, false),
        (
            Some(FailureReason::ScreenshotFailed),
            "window did not accept 640x480; actual size 800x600".to_string()
        )
    );
    let closed = WindowStart::Size { id: 8 }.advance(
        &requested,
        WindowEvent::Windows(Ok(vec![window(7, "Main")])),
        false,
    );
    assert_eq!(end(closed, false).1, "initial window closed while resizing");
    let watching = WindowStart::ObserveWait { id: 7, seen: FrameObservation::default() };
    let blank = watching.advance(
        &requested,
        WindowEvent::Slept(Err("deadline elapsed".to_string())),
        true,
    );
    let (reason, message) = end(blank, true);
    assert_eq!(reason, Some(FailureReason::WindowTimeout));
    assert!(message.contains("window did not become ready"), "{message}");
    let exit = CaptureError::failure(FailureReason::EarlyExit, "gone".to_string());
    let checked = WindowStart::Check { outcome: Ok(7) };
    match checked.advance(&requested, WindowEvent::Health(Err(exit)), false) {
        WindowStart::Failed { error } => assert_eq!(error.reason, Some(FailureReason::EarlyExit)),
        other => panic!("unexpected {other:?}"),
    }
}

#[test]
fn requests_are_what_serde_reads() {
    let click = Request::Input { window: 7, input: Input::Click { x: 25, y: 40 } };
    let keys = Request::Input { window: 7, input: Input::Key(vec![0xffe3, 97]) };
    let typed =
        Request::Input { window: 7, input: Input::Text("a \"b\"\n\u{1}\u{e9}".to_string()) };
    let capture = Request::Capture { window: 7, path: "/tmp/\"x\"\\y.png".to_string() };
    let resize = Request::Resize { window: 7, width: 800, height: 600 };
    let parse = |request: &Request| {
        let written = request.to_json("org.example.\"App\"");
        let value: serde_json::Value = serde_json::from_str(&written).unwrap();
        assert_eq!(value.to_string(), written);
        value
    };
    assert_eq!(parse(&Request::Ping).to_string(), "{\"action\":\"ping\"}");
    assert_eq!(parse(&Request::Windows)["action"], "windows");
    let value = parse(&click);
    assert_eq!(value["action"], "click");
    assert_eq!(value["x"], 12.5);
    assert_eq!(value["y"], 20.0);
    assert_eq!(value["window"], 7);
    assert_eq!(value["app_id"], "org.example.\"App\"");
    let value = parse(&keys);
    assert_eq!(value["keys"][0], 0xffe3);
    assert_eq!(value["keys"][1], 97);
    assert_eq!(parse(&typed)["text"], "a \"b\"\n\u{1}\u{e9}");
    assert_eq!(parse(&capture)["path"], "/tmp/\"x\"\\y.png");
    let value = parse(&resize);
    assert_eq!((value["width"].as_u64(), value["height"].as_u64()), (Some(800), Some(600)));
}

#[test]
fn helpers_get_whole_milliseconds() {
    assert_eq!(helper_timeout(Duration { nanos: 5 }), "1");
    assert_eq!(helper_timeout(Duration::from_millis(1500)), "1500");
    assert_eq!(helper_timeout(Duration::from_secs(9_000_000)), "2147483647");
}

#[test]
fn replies_are_read() {
    let good = "{\"ok\":true,\"result\":{\"protocol\":1,\"version\":\"48.2\",\"list\":[1, 2]}}";
    assert_eq!(reply(ran(good)).unwrap(), good.as_bytes());
    assert_eq!(
        result_json(good.as_bytes()),
        "{\"list\":[1,2],\"protocol\":1,\"version\":\"48.2\"}"
    );
    assert_eq!(result_json(b"{\"ok\":true}"), "null");
    assert_eq!(reply(broke(" no bus\n")).unwrap_err().message, "desktop helper failed: no bus");
    let error = reply(ran("{")).unwrap_err();
    assert_eq!(error.brief, "invalid desktop helper response");
    assert!(error.message.starts_with("invalid desktop helper response: EOF"), "{error:?}");
    let refused = "{\"ok\":false,\"error\":\"no such window\"}";
    assert_eq!(reply(ran(refused)).unwrap_err().message, "desktop helper: no such window");
    assert_eq!(reply(ran("{\"ok\":1}")).unwrap_err().message, "desktop helper: unknown error");
    assert_eq!(reply(Err("run cancelled".to_string())).unwrap_err().brief, "run cancelled");
}

#[test]
fn pings_are_judged() {
    let told = |stdout: &str| match ping(ran(stdout)) {
        Ping::Ready { version } => version,
        Ping::Retry { error } => error.message,
        Ping::Refused { message } => message,
    };
    assert_eq!(told("{\"ok\":true,\"result\":{\"protocol\":1,\"version\":\"48.2\"}}"), "48.2");
    assert_eq!(
        told("{\"ok\":true,\"result\":{\"protocol\":2,\"version\":\"48.2\"}}"),
        "unsupported desktop helper protocol"
    );
    assert_eq!(
        told("{\"ok\":true,\"result\":{\"protocol\":1}}"),
        "desktop did not report version"
    );
    assert!(matches!(ping(broke("x")), Ping::Retry { .. }));
    assert!(matches!(answered(Some(1), Some("v".to_string())), Ping::Ready { .. }));
    assert!(matches!(answered(None, None), Ping::Refused { .. }));
}

#[test]
fn picture_sizes_are_read() {
    assert_eq!(parse_size("PNG 820 620\n"), Ok((820, 620)));
    assert_eq!(parse_size("JPEG 820 620").unwrap_err(), "capture must be one PNG image");
    assert_eq!(parse_size("PNG 1 1PNG 1 1").unwrap_err(), "capture must be one PNG image");
    assert_eq!(parse_size("PNG 0 620").unwrap_err(), "empty capture image");
    for number in [
        "x",
        "+",
        "-1",
        "++1",
        "4294967296",
        "99999999999",
        "+99999999999",
        "99999999999x",
        "4294967296x",
        "4294967295x",
        "429496729x6",
        "00000000000000000001x",
    ] {
        let told = number.parse::<u32>().unwrap_err().to_string();
        assert_eq!(parse_size(&format!("PNG {number} 1")).unwrap_err(), told, "{number}");
        assert_eq!(parse_size(&format!("PNG 1 {number}")).unwrap_err(), told, "{number}");
    }
    assert_eq!(
        parse_size("PNG 99999999999x 1").unwrap_err(),
        "number too large to fit in target type"
    );
    assert_eq!(parse_size("PNG 0000000000001 +2"), Ok((1, 2)));
}

#[test]
fn interiors_leave_header_and_border_out() {
    let region = content_region(&window(1, "Main"), 820, 620).unwrap();
    assert_eq!(region, Region { x: 18, y: 82, width: 784, height: 520 });
    assert_eq!(region.geometry(), "784x520+18+82");
    assert_eq!(
        content_region(&window(1, "Main"), 500, 620).unwrap_err(),
        "invalid window content geometry"
    );
    let tiny = Window { frame: Rect { x: 0, y: 0, width: 16, height: 40 }, ..window(1, "Main") };
    assert!(content_region(&tiny, 820, 620).is_err());
    assert_eq!(describe_args(), vec!["-format", "%m %w %h"]);
    assert_eq!(measure_args(&region)[..2], ["-crop", "784x520+18+82"]);
}

#[test]
fn pictures_are_described_and_measured() {
    match Inspection::described(ran("PNG 820 620"), &window(1, "Main")) {
        Inspection::Measure { width, height, region } => {
            assert_eq!((width, height), (820, 620));
            assert_eq!(region.width, 784);
        }
        other => panic!("unexpected {other:?}"),
    }
    match Inspection::measured(ran("0.2"), 820, 620, Ok(true)) {
        Inspection::Done { info } => assert_eq!(info, shown()),
        other => panic!("unexpected {other:?}"),
    }
    let told = |inspection| match inspection {
        Inspection::Failed { error } => error.message,
        other => panic!("unexpected {other:?}"),
    };
    assert_eq!(
        told(Inspection::described(broke("bad"), &window(1, "Main"))),
        "invalid capture image: bad"
    );
    assert_eq!(
        told(Inspection::measured(broke("bad"), 1, 1, Ok(true))),
        "measuring app content: bad"
    );
    assert_eq!(
        told(Inspection::measured(ran("x"), 1, 1, Err("invalid float literal".to_string()))),
        "invalid float literal"
    );
}

#[test]
fn texts_are_read_twice() {
    let reading = Reading::Enlarge;
    assert_eq!(reading.call().unwrap().0, "convert");
    let reading = reading.advance(ran(""));
    assert_eq!(reading.call().unwrap().1, vec!["-colorspace", "Gray", "-threshold", "60%"]);
    let reading = reading.advance(ran(""));
    assert_eq!(reading.call().unwrap().0, "tesseract");
    let reading = reading.advance(ran("one")).advance(ran("two"));
    match reading {
        Reading::Done { passes } => assert_eq!(passes, vec!["one", "two"]),
        other => panic!("unexpected {other:?}"),
    }
    let bytes = Ok(ToolRun { success: true, stdout: vec![0xff], stderr: Vec::new() });
    match (Reading::Read { passes: Vec::new() }).advance(bytes) {
        Reading::Failed { error } => {
            let expected = String::from_utf8(vec![0xff]).unwrap_err().to_string();
            assert_eq!(error.message, format!("invalid OCR text encoding: {expected}"));
        }
        other => panic!("unexpected {other:?}"),
    }
}

#[test]
fn places_found_twice_count_once() {
    let near = "level\n5\t1\t1\t1\t1\t1\t104\t54\t40\t20\t96\tReady\n";
    let far = "level\n5\t1\t1\t1\t1\t1\t109\t50\t40\t20\t96\tReady\n";
    let passes = |second: &str| vec![TABLE.to_string(), second.to_string()];
    assert_eq!(images::matches(&passes(near), "Ready"), Some(vec![(120, 60)]));
    assert_eq!(images::matches(&passes(far), "Ready"), Some(vec![(120, 60), (129, 60)]));
    assert_eq!(images::matches(&passes(near), "Other"), Some(Vec::new()));
    let huge = "level\n5\t1\t1\t1\t1\t1\t2147483647\t50\t40\t20\t96\tReady\n";
    assert_eq!(images::matches(&passes(huge), "Ready"), None);
}

#[test]
fn dependencies_are_checked_in_order() {
    let met = Dependencies::tools_checked(&Vec::new());
    assert_eq!(met.call().unwrap(), ("gnome-shell".to_string(), vec!["--version".to_string()]));
    let met = met.advance(ran("GNOME Shell 48.2\n"));
    assert_eq!(met.call().unwrap().0, "python3");
    let met = met.advance(ran(""));
    assert_eq!(met.call().unwrap().1, vec!["list-schemas"]);
    let met = met.advance(ran("org.gnome.shell\norg.gnome.desktop.interface\n"));
    assert_eq!(met.call().unwrap().0, "locale");
    let met = met.advance(ran("C\nen_US.utf8\n"));
    assert_eq!(met.call().unwrap().1, vec!["--list-langs"]);
    let met = met.advance(ran("List:\n eng \n"));
    assert!(met.call().is_none());
    assert!(matches!(met, Dependencies::Met { version } if version == "GNOME Shell 48.2"));
    assert_eq!(required_capture_tools().len(), 11);
}

#[test]
fn unmet_dependencies_are_told() {
    let told = |dependencies: Dependencies, run| match dependencies.advance(run) {
        Dependencies::Unmet { message } => message,
        other => panic!("unexpected {other:?}"),
    };
    let version = || "48.2".to_string();
    assert_eq!(
        told(Dependencies::Version, ran("GNOME Shell 47.1")),
        "screenshot backend requires GNOME Shell 48; found GNOME Shell 47.1"
    );
    assert_eq!(told(Dependencies::Version, broke("x")), "could not query GNOME Shell version");
    assert_eq!(
        told(Dependencies::Bindings { version: version() }, broke("x")),
        "Python GObject/Gio and AT-SPI bindings are required"
    );
    assert_eq!(
        told(Dependencies::Schemas { version: version() }, ran("org.gnome.shell\n")),
        "GNOME desktop settings schemas are required"
    );
    assert_eq!(
        told(Dependencies::Locales { version: version() }, ran("C\n")),
        "en_US.UTF-8 locale is required"
    );
    assert_eq!(
        told(Dependencies::Languages { version: version() }, ran("deu\n")),
        "Tesseract English language data is required"
    );
    assert_eq!(
        told(Dependencies::Version, Err("deadline elapsed".to_string())),
        "deadline elapsed"
    );
}

#[test]
fn capture_processes_are_watched() {
    let running = ProcessState::Running;
    assert!(check_processes(&running, &AppState::Absent, None).is_ok());
    assert!(check_processes(&running, &AppState::Running, Some(true)).is_ok());
    let detached = |success, lives| AppState::Detached {
        success,
        status: "exit status: 0".to_string(),
        lives,
    };
    assert!(check_processes(&running, &detached(true, true), Some(true)).is_ok());
    for app in [detached(true, false), detached(false, true)] {
        let error = check_processes(&running, &app, Some(true)).unwrap_err();
        assert_eq!(error.reason, Some(FailureReason::EarlyExit));
        assert_eq!(error.message, "app exited during capture with exit status: 0");
    }
    let gone = ProcessState::Exited("signal: 9".to_string());
    let error = check_processes(&gone, &detached(false, false), Some(false)).unwrap_err();
    assert_eq!(error.reason, Some(FailureReason::DisplayExited));
    let error = check_processes(&running, &AppState::Running, Some(false)).unwrap_err();
    assert_eq!(error.message, "native capture helper disconnected");
    let unknown = AppState::Unknown("no child".to_string());
    let error = check_processes(&running, &unknown, None).unwrap_err();
    assert_eq!((error.reason, error.message.as_str()), (None, "no child"));
    assert!(names_instance("org.example.Other\n org.example.App \n", "org.example.App"));
    assert!(!names_instance("org.example.Apps\n", "org.example.App"));
}

#[test]
fn sessions_of_the_desktop_start_up() {
    let startup = Startup::Extension;
    assert_eq!(startup.setting().unwrap()[2], "enabled-extensions");
    let startup = startup.set(ran(""));
    assert_eq!(startup.setting().unwrap()[2], "toolkit-accessibility");
    let startup = startup.set(ran("")).spawned(Ok(()));
    let startup = startup.polled(Ok(()), None).polled(Ok(()), Some(ping(broke("not yet"))));
    assert!(matches!(&startup, Startup::Poll { last_error } if last_error == "desktop helper failed: not yet"));
    let ready = startup
        .slept(Ok(()), Ok(()))
        .polled(Ok(()), Some(Ping::Ready { version: "48.2".to_string() }));
    assert!(matches!(&ready, Startup::Answered { version } if version == "48.2"));
    let ready = ready.confirmed(Ok(()));
    assert!(matches!(ready, Startup::Ready { version } if version == "48.2"));
}

#[test]
fn sessions_of_the_desktop_fail_to_start() {
    let told = |startup: Startup| match startup {
        Startup::Failed { error } => (error.reason, error.message),
        other => panic!("unexpected {other:?}"),
    };
    assert_eq!(
        told(Startup::Extension.set(broke("x"))).1,
        "setting GNOME capture extension: x"
    );
    assert_eq!(told(Startup::Accessibility.set(broke("x"))).1, "enabling session accessibility");
    assert!(told(Startup::Spawn.spawned(Err("missing".to_string()))).1.contains("missing"));
    let waiting = || Startup::Poll { last_error: "not yet".to_string() };
    let late = waiting().slept(Err("deadline elapsed".to_string()), Ok(()));
    assert_eq!(
        told(late),
        (
            Some(FailureReason::DisplayStartFailed),
            "GNOME helper did not become ready: not yet".to_string()
        )
    );
    let refused = Ping::Refused { message: "unsupported desktop helper protocol".to_string() };
    assert_eq!(
        told(waiting().polled(Ok(()), Some(refused))).1,
        "unsupported desktop helper protocol"
    );
    let exit = CaptureError::failure(FailureReason::DisplayExited, "gone".to_string());
    assert_eq!(
        told(waiting().polled(Err(exit), None)).0,
        Some(FailureReason::DisplayExited)
    );
    let exit = CaptureError::failure(FailureReason::DisplayExited, "gone".to_string());
    let answered = Startup::Answered { version: "48.2".to_string() };
    assert_eq!(told(answered.confirmed(Err(exit))).0, Some(FailureReason::DisplayExited));
    assert!(unlocked(ran("")).is_ok());
    assert_eq!(unlocked(broke("x")).unwrap_err().message, "unlocking session keyring: x");
}

#[test]
fn apps_are_launched_with_their_arguments() {
    let app = AppRef::parse("app/org.example.App/x86_64/stable").unwrap();
    let line = launch(&app, &vec!["--open".to_string(), "a b".to_string()]);
    assert_eq!(line[..4], ["run", "--user", "--arch=x86_64", "--branch=stable"]);
    let id = line.iter().position(|arg| arg == "org.example.App").unwrap();
    assert_eq!(line[id + 1..], ["--open", "a b"]);
    assert_eq!(session_args()[..3], ["--", "sh", "-c"]);
    assert_eq!(keyring_args()[0], "--foreground");
    assert_eq!(unlock_args()[0], "-c");
}

#[test]
fn only_the_path_comes_from_outside() {
    let entries = capture_environment();
    let inherited: Vec<_> = entries
        .iter()
        .filter(|entry| matches!(entry.origin, Origin::Inherited(_)))
        .map(|entry| entry.name.as_str())
        .collect();
    assert_eq!(inherited, vec!["PATH"]);
    let home: Vec<_> = entries
        .iter()
        .filter(|entry| matches!(entry.origin, Origin::Home))
        .map(|entry| entry.name.as_str())
        .collect();
    assert_eq!(home, vec!["HOME"]);
    let runtime = entries.iter().find(|entry| entry.name == "XDG_RUNTIME_DIR").unwrap();
    assert!(matches!(&runtime.origin, Origin::Below(directory) if directory == "runtime"));
    assert_eq!(
        home_directories(),
        vec!["data", "cache", "config", "state", "runtime", ".var/app"]
    );
}

#[test]
fn errors_gather_reason_and_context() {
    let error = plain("no such file").context("reading");
    assert_eq!(error.message, "reading: no such file");
    assert_eq!(error.reason, None);
    let settled = error.settle();
    assert_eq!(settled.reason, FailureReason::InternalError);
    let known = plain("x").or_reason(FailureReason::ScreenshotFailed);
    assert_eq!(known.reason, Some(FailureReason::ScreenshotFailed));
    let kept = known.or_reason(FailureReason::EarlyExit).settle();
    assert_eq!(kept.reason, FailureReason::ScreenshotFailed);
    assert_eq!(required_run(ran("out"), "doing").unwrap().stdout, b"out");
    assert_eq!(required_run(broke("bad"), "doing").unwrap_err().message, "doing: bad");
    assert_eq!(
        required_run(Err("late".to_string()), "doing").unwrap_err().message,
        "late"
    );
}
