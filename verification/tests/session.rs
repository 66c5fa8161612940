use flatpak_smoke::capture::{
    app_error, button_bears_label, button_crop, button_log, click_text_table, compare_call,
    component_report, content_call, detect_app_error_text, metric_words,
    parse_absolute_error_metric, screenshot_diff_exceeds_threshold, screenshot_has_content,
    screenshots_differ_by_threshold, text_call, Attempt, CaptureWait,
    ChangeTry, ChangeWait, Comparison, FrameObservation, FrameWait, TargetSearch,
    FRAME_OBSERVATION_MS, POST_CLICK_SCREENSHOT_DIFF_PIXEL_THRESHOLD,
    SCREENSHOT_DIFF_PIXEL_THRESHOLD,
};
use flatpak_smoke::display::{
    app_args, backend, connect_error, connect_timeout, display_name, environ_contains,
    flatpak_run_target, is_keyring_unlock_cmdline, is_own_keyring, is_stale_lock, launch_error,
    lock_holder, lock_name, next_port, start_weston, tried_port, vnc_credentials, weston_args,
    weston_log, weston_spawn_error, CompositorWait, PortState, PortStep, ReadyStep, StartStep,
    END_PORT, FIRST_PORT,
};
use flatpak_smoke::ocr::{
    app_error_text_marker, centers_of, component_areas_fit, find_ocr_text_matches,
    find_primary_action_button, normalize_ocr_word, normalized_ocr_text, normalized_ocr_words,
    ocr_centers_fit, ocr_text_contains_label, parse_component_bbox, parse_connected_component,
    parse_ocr_words, unambiguous_ocr_text_center, words_occur, ComponentBox,
};
use flatpak_smoke::process::{
    io_timeout, poll_cleanup, poll_command, remaining, sleep_before, tool_output, BudgetError,
    CleanupPoll, CommandPoll, ToolOutcome, Wait,
};
use flatpak_smoke::result::FailureReason;
use flatpak_smoke::session::{
    bounded_timeout, check_processes, click_screenshot_name, close_session,
    relative_screenshot_path, screenshot_slug, ProcessState, Report, SessionError, SessionRun,
    SessionStage, SessionSuccess,
};
use flatpak_smoke::time::{Duration, Instant};

fn at(millis: u64) -> Instant {
    Instant { nanos: 1_000_000 * u128::from(millis) }
}

fn wrote(stdout: &str) -> ToolOutcome {
    ToolOutcome::Finished { code: Some(0), stdout: stdout.as_bytes().to_vec(), stderr: Vec::new() }
}

fn broke(stderr: &str) -> ToolOutcome {
    ToolOutcome::Finished { code: Some(2), stdout: Vec::new(), stderr: stderr.as_bytes().to_vec() }
}

fn failure(message: &str) -> SessionError {
    SessionError::new(FailureReason::ScreenshotFailed, message.to_string())
}

fn reason_of(attempt: Attempt) -> (FailureReason, String) {
    match attempt {
        Attempt::Fail(error) => (error.reason, error.message),
        other => panic!("unexpected {other:?}"),
    }
}

#[test]
fn transient_content_does_not_satisfy_readiness() {
    let mut observation = FrameObservation::default();
    assert!(!observation.observe(true, at(0)));
    assert!(!observation.observe(true, at(400)));
    assert!(!observation.observe(false, at(600)));
    assert!(!observation.observe(true, at(800)));
    assert!(!observation.observe(true, at(1200)));
    assert!(observation.observe(true, at(1600)));
}

#[test]
fn readiness_requires_elapsed_time_and_multiple_samples() {
    let mut observation = FrameObservation::default();
    assert!(!observation.observe(true, at(0)));
    assert!(!observation.observe(true, at(FRAME_OBSERVATION_MS)));
    assert!(observation.observe(true, at(FRAME_OBSERVATION_MS + 200)));

    let mut observation = FrameObservation::default();
    for millis in [0, 100, 200, 300] {
        assert!(!observation.observe(true, at(millis)));
    }
    assert!(observation.observe(true, at(FRAME_OBSERVATION_MS)));
}

#[test]
fn converts_full_app_ref_to_flatpak_run_target() {
    assert_eq!(
        flatpak_run_target("app/org.example.App/x86_64/stable"),
        "org.example.App//stable"
    );
    assert_eq!(flatpak_run_target("org.example.App"), "org.example.App");
}

#[test]
fn detects_app_error_text_markers_from_ocr_text() {
    assert_eq!(
        app_error_text_marker("Secret\nPortal   Error"),
        Some("secret portal error")
    );
    assert_eq!(
        app_error_text_marker("An unexpected error occurred"),
        Some("unexpected error")
    );
    assert_eq!(app_error_text_marker("Error handling preferences"), None);
}

#[test]
fn every_marker_is_found_whatever_its_case() {
    for marker in [
        "secret portal error",
        "unexpected error",
        "fatal error",
        "unhandled exception",
        "application error",
        "something went wrong",
    ] {
        let shouted = format!("x {}\ty", marker.to_uppercase().replace(' ', " \n "));
        assert_eq!(app_error_text_marker(&shouted), Some(marker));
    }
    assert_eq!(normalized_ocr_text(" A  b\nC "), "a b c");
}

fn metric(report: &str) -> Option<u64> {
    let mut numbers = Vec::new();
    for word in metric_words(report.as_bytes()) {
        numbers.push(word.parse::<f64>().ok().map(|value| value.round() as u64));
    }
    parse_absolute_error_metric(&numbers)
}

#[test]
fn parses_imagemagick_absolute_error_metric() {
    assert_eq!(metric("0"), Some(0));
    assert_eq!(metric("120 (0.002)"), Some(120));
    assert_eq!(metric("not a metric"), None);
}

#[test]
fn the_first_number_is_the_metric() {
    assert_eq!(metric_words(b" all: 120 \n(0.002)\xff"), ["all:", "120", "(0.002)\u{fffd}"]);
    assert_eq!(metric("all: 120.5 7"), Some(121));
    assert_eq!(metric(""), None);
}

#[test]
fn rejects_cursor_only_screenshot_diffs() {
    assert!(!screenshot_diff_exceeds_threshold(
        776,
        SCREENSHOT_DIFF_PIXEL_THRESHOLD
    ));
    assert!(screenshot_diff_exceeds_threshold(
        4096,
        SCREENSHOT_DIFF_PIXEL_THRESHOLD
    ));
}

#[test]
fn allows_small_post_click_screenshot_diffs() {
    assert!(!screenshot_diff_exceeds_threshold(
        25,
        POST_CLICK_SCREENSHOT_DIFF_PIXEL_THRESHOLD
    ));
    assert!(screenshot_diff_exceeds_threshold(
        26,
        POST_CLICK_SCREENSHOT_DIFF_PIXEL_THRESHOLD
    ));
}

#[test]
fn comparisons_count_pixels_only_where_pictures_differ() {
    let differs =
        || ToolOutcome::Finished { code: Some(1), stdout: Vec::new(), stderr: b"30".to_vec() };
    assert!(screenshots_differ_by_threshold(differs(), Some(30), 25).unwrap());
    assert!(!screenshots_differ_by_threshold(differs(), Some(25), 25).unwrap());
    assert!(screenshots_differ_by_threshold(differs(), None, 25).unwrap());
    assert!(!screenshots_differ_by_threshold(wrote(""), Some(30), 25).unwrap());
    let error = screenshots_differ_by_threshold(broke(" bad \n"), None, 25).unwrap_err();
    assert_eq!(error.reason, FailureReason::ScreenshotFailed);
    assert_eq!(error.message, "failed to compare screenshots with ImageMagick: bad");
    let error = screenshots_differ_by_threshold(ToolOutcome::Missing, None, 25).unwrap_err();
    assert_eq!(error.reason, FailureReason::DependencyFailed);
    assert_eq!(error.message, "missing required tool: compare");
    let broken = ToolOutcome::Broken { error: "no pipe".to_string() };
    let error = screenshots_differ_by_threshold(broken, None, 25).unwrap_err();
    assert_eq!(error.message, "failed to run ImageMagick compare: no pipe");
}

#[test]
fn flat_pictures_have_no_content() {
    assert!(screenshot_has_content(wrote("0.3"), Some(true)).unwrap());
    assert!(!screenshot_has_content(wrote("0"), Some(false)).unwrap());
    let error = screenshot_has_content(wrote("bogus"), None).unwrap_err();
    assert!(error.message.contains("failed to parse ImageMagick standard deviation"));
    let error = screenshot_has_content(ToolOutcome::Missing, None).unwrap_err();
    assert_eq!(error.message, "missing required tool: identify");
}

#[test]
fn app_errors_are_read_from_pictures() {
    let (marker, log) = detect_app_error_text(wrote("A Fatal\nError!")).unwrap();
    assert_eq!(marker, Some("fatal error"));
    assert_eq!(log, "screenshot OCR matched app-error marker 'fatal error'");
    let (marker, log) = detect_app_error_text(wrote("Welcome")).unwrap();
    assert_eq!(marker, None);
    assert_eq!(log, "screenshot OCR found no app-error markers");
    let bytes =
        ToolOutcome::Finished { code: Some(0), stdout: b"\xff fatal error".to_vec(), stderr: vec![] };
    assert_eq!(detect_app_error_text(bytes).unwrap().0, Some("fatal error"));
    let error = app_error("fatal error");
    assert_eq!(error.reason, FailureReason::AppErrorWindow);
    assert_eq!(error.message, "screenshot text matched app error marker 'fatal error'");
}

#[test]
fn builds_click_screenshot_names_from_labels() {
    assert_eq!(
        click_screenshot_name(1, "Log In"),
        "001-after-click-log-in.png"
    );
    assert_eq!(
        click_screenshot_name(12, "  ++  "),
        "012-after-click-text.png"
    );
}

#[test]
fn slugs_hold_letters_digits_and_dashes() {
    assert_eq!(screenshot_slug("Log In"), "log-in");
    assert_eq!(screenshot_slug("a/../b"), "a-b");
    assert_eq!(screenshot_slug("\u{c4}rger 7"), "rger-7");
    assert_eq!(screenshot_slug(""), "text");
    for text in ["Log In", "--a  b--", "", "...", "text", "X--1"] {
        let slug = screenshot_slug(text);
        assert_eq!(screenshot_slug(&slug), slug, "{text}");
        assert!(!slug.starts_with('-') && !slug.ends_with('-') && !slug.contains("--"), "{text}");
    }
    assert_ne!(click_screenshot_name(1, "a"), click_screenshot_name(2, "a"));
    assert_eq!(relative_screenshot_path("a.png"), "screenshots/a.png");
}

#[test]
fn finds_ocr_text_center_across_words_on_same_line() {
    let tsv = "level\tpage_num\tblock_num\tpar_num\tline_num\tword_num\tleft\ttop\twidth\theight\tconf\ttext\n\
         5\t1\t1\t1\t1\t1\t100\t50\t40\t20\t96\tLog\n\
         5\t1\t1\t1\t1\t2\t148\t50\t24\t20\t96\tIn\n\
         5\t1\t1\t1\t2\t1\t10\t90\t40\t20\t96\tOther\n";

    assert_eq!(find_ocr_text_matches(tsv, "Log In"), vec![(136, 60)]);
    assert!(find_ocr_text_matches(tsv, "Sign In").is_empty());
}

#[test]
fn ocr_words_are_rows_of_the_table() {
    let words = parse_ocr_words(
        "level\tpage_num\n\
         5\t1\t2\t3\t4\t1\t100\t50\t40\t20\t96\t\u{201c}Log\u{201d}\n\
         5\t1\t2\t3\t4\tshort\n\
         5\t1\t2\t3\tx\t1\t100\t50\t40\t20\t96\tbad\n\
         5\t1\t2\t3\t4\t1\t100\t50\t40\t20\t96\t--\n",
    );
    assert_eq!(words.len(), 1);
    assert_eq!(words[0].text, "log");
    assert_eq!((words[0].block_num, words[0].par_num, words[0].line_num), (2, 3, 4));
    assert!(words[0].is_same_line(&words[0]));
    assert_eq!(centers_of(&words, &["log".to_string()]), Some(vec![(120, 60)]));
}

#[test]
fn words_are_matched_without_signs_and_case() {
    assert_eq!(normalize_ocr_word("(L\u{d6}g-In!)"), "l\u{d6}g-in");
    assert_eq!(normalized_ocr_words(" Log  (in) - "), vec!["log", "in"]);
    assert!(words_occur(
        &["a".to_string(), "b".to_string(), "c".to_string()],
        &["b".to_string(), "c".to_string()]
    ));
    assert!(!words_occur(&["a".to_string(), "c".to_string()], &["c".to_string(), "a".to_string()]));
}

#[test]
fn centers_that_do_not_fit_are_told() {
    let huge = "level\n5\t1\t1\t1\t1\t1\t2147483647\t50\t40\t20\t96\tLog\n";
    assert!(!ocr_centers_fit(huge, "Log"));
    assert!(ocr_centers_fit(huge, "Other"));
    let words = parse_ocr_words(huge);
    assert_eq!(centers_of(&words, &["log".to_string()]), None);
}

#[test]
fn rejects_ambiguous_ocr_text_matches_without_button_fallback() {
    let matches = [(120, 60), (120, 240)];
    let error = unambiguous_ocr_text_center(&matches, "Log In").unwrap_err();

    assert_eq!(error.reason, FailureReason::ScreenshotFailed);
    assert!(error.message.contains("matched multiple OCR locations"));
}

#[test]
fn single_matches_are_taken() {
    assert_eq!(unambiguous_ocr_text_center(&[(1, 2)], "Log In").unwrap(), Some((1, 2)));
    assert_eq!(unambiguous_ocr_text_center(&[], "Log In").unwrap(), None);
}

#[test]
fn matches_button_crop_ocr_text_by_requested_label() {
    assert!(ocr_text_contains_label("q Log In >", "Log In"));
    assert!(ocr_text_contains_label(": Click Me :", "Click Me"));
    assert!(!ocr_text_contains_label("Advanced", "Log In"));
}

#[test]
fn labels_without_letters_are_never_found() {
    assert!(!ocr_text_contains_label("anything", "--"));
    assert!(find_ocr_text_matches("", "--").is_empty());
}

#[test]
fn finds_single_primary_action_button_component() {
    let components = r#"
Objects (id: bounding-box centroid area mean-color):
  0: 1280x720+0+0 634.4,357.8 900926 srgb(0,0,0)
  5: 260x44+715+511 844.5,532.5 10796 srgb(255,255,255)
  2: 127x108+842+293 916.6,344.6 5252 srgb(255,255,255)
  1: 148x48+760+232 825.0,248.3 3032 srgb(255,255,255)
"#;

    assert_eq!(
        find_primary_action_button(components).map(ComponentBox::center),
        Some((845, 533))
    );
}

#[test]
fn rejects_ambiguous_primary_action_button_components() {
    let components = r#"
  1: 260x44+715+511 844.5,532.5 10796 srgb(255,255,255)
  2: 240x40+700+590 820.0,610.0 9000 srgb(255,255,255)
"#;

    assert_eq!(find_primary_action_button(components), None);
}

#[test]
fn components_are_read_from_their_lines() {
    let button = parse_connected_component("  5: 260x44+715+511 844.5,532.5 10796 srgb(255,255,255)")
        .unwrap();
    assert_eq!(button, ComponentBox { x: 715, y: 511, width: 260, height: 44, area: 10796 });
    assert_eq!(button.crop_geometry(), "260x44+715+511");
    assert!(button.has_center());
    assert!(button.is_primary_action_button_like());
    assert_eq!(parse_connected_component("  5: 260x44+715+511 844.5,532.5"), None);
    assert_eq!(parse_connected_component("  x: 260x44+715+511 844.5,532.5 10796"), None);
    assert_eq!(parse_connected_component("  5 260x44+715+511 844.5,532.5 10796"), None);
    assert_eq!(parse_component_bbox("260x44+715"), None);
    assert!(component_areas_fit("  1: 260x44+715+511 844.5,532.5 10796 srgb(255,255,255)"));
    assert!(!component_areas_fit(
        "  1: 260x44+715+511 844.5,532.5 2147483647 srgb(255,255,255)"
    ));
    let far = ComponentBox { x: i32::MAX, y: 0, width: 260, height: 44, area: 10796 };
    assert!(!far.has_center());
}

const TABLE: &str = "level\n\
    5\t1\t1\t1\t1\t1\t100\t50\t40\t20\t96\tLog\n\
    5\t1\t1\t1\t1\t2\t148\t50\t24\t20\t96\tIn\n\
    5\t1\t1\t1\t2\t1\t100\t250\t40\t20\t96\tLog\n\
    5\t1\t1\t1\t2\t2\t148\t250\t24\t20\t96\tIn\n";

const BUTTON: &str = "  5: 260x44+715+511 844.5,532.5 10796 srgb(255,255,255)\n";

#[test]
fn labelled_buttons_are_preferred() {
    let search = TargetSearch::new();
    let call = search.call().unwrap();
    assert_eq!(call.program, "tesseract");
    assert!(call.before.is_empty());
    assert_eq!(call.after, vec!["stdout", "--psm", "6", "tsv"]);
    let search = search.advance("Log In", wrote(TABLE));
    let call = search.call().unwrap();
    assert_eq!(call.program, "convert");
    assert_eq!(call.after[7], "#3584e4");
    let search = search.advance("Log In", wrote(BUTTON));
    let call = search.call().unwrap();
    assert_eq!(call.after[1], "260x44+715+511");
    let search = search.advance("Log In", wrote(""));
    assert_eq!(search.call().unwrap().after, vec!["stdout", "--psm", "7"]);
    match search.advance("Log In", wrote("> Log In")) {
        TargetSearch::Found { target, by_button } => {
            assert_eq!(target, Some((845, 533)));
            assert!(by_button);
        }
        other => panic!("unexpected {other:?}"),
    }
    assert_eq!(
        button_log("Log In", (845, -3)),
        "using matching primary action button visual fallback for click text 'Log In' at 845,-3"
    );
}

#[test]
fn searches_settle_without_a_button() {
    let twice = TargetSearch::new().advance("Log In", wrote(TABLE)).advance("Log In", wrote(""));
    match twice {
        TargetSearch::Failed { error } => {
            assert!(error.message.contains("matched multiple OCR locations"))
        }
        other => panic!("unexpected {other:?}"),
    }
    let once = TargetSearch::new()
        .advance("Other", wrote("level\n5\t1\t1\t1\t2\t1\t10\t90\t40\t20\t96\tOther\n"))
        .advance("Other", wrote(BUTTON))
        .advance("Other", wrote(""))
        .advance("Other", wrote("Log In"));
    match once {
        TargetSearch::Found { target, by_button } => {
            assert_eq!(target, Some((30, 100)));
            assert!(!by_button);
        }
        other => panic!("unexpected {other:?}"),
    }
    let none = TargetSearch::new().advance("Nope", wrote("")).advance("Nope", wrote(""));
    assert!(matches!(none, TargetSearch::Found { target: None, by_button: false }));
    assert!(none.call().is_none());
    match TargetSearch::new().advance("Log In", ToolOutcome::Missing) {
        TargetSearch::Failed { error } => {
            assert_eq!(error.message, "missing required tool: tesseract")
        }
        other => panic!("unexpected {other:?}"),
    }
    let unfit = TargetSearch::new()
        .advance("Log", wrote("level\n5\t1\t1\t1\t1\t1\t2147483647\t50\t40\t20\t96\tLog\n"));
    assert!(matches!(unfit, TargetSearch::Unfit));
}

#[test]
fn tools_of_the_search_fail_with_their_names() {
    assert_eq!(
        click_text_table(broke("x")).unwrap_err().message,
        "failed to locate click text with tesseract: x"
    );
    assert_eq!(
        component_report(broke("x")).unwrap_err().message,
        "failed to locate primary action button with ImageMagick: x"
    );
    assert_eq!(
        button_crop(broke("x")).unwrap_err().message,
        "failed to crop primary action button with ImageMagick: x"
    );
    assert_eq!(
        button_bears_label(broke("x"), "Log In").unwrap_err().message,
        "failed to OCR primary action button crop with tesseract: x"
    );
    let both = ToolOutcome::Finished {
        code: Some(0),
        stdout: b"one".to_vec(),
        stderr: b"two".to_vec(),
    };
    assert_eq!(component_report(both).unwrap(), "one\ntwo");
    let compare = compare_call();
    assert_eq!(compare.program, "compare");
    assert_eq!(compare.before, vec!["-metric", "AE"]);
    assert_eq!(compare.after, vec!["null:"]);
    assert_eq!(content_call().before, vec!["-format", "%[fx:standard_deviation]"]);
    assert_eq!(text_call().after, vec!["stdout", "--psm", "6"]);
}

#[test]
fn tool_outcomes_become_output_or_errors() {
    let got = tool_output(wrote("text"), "t", "failed", "not run").unwrap();
    assert_eq!(got.stdout, b"text");
    let killed =
        ToolOutcome::Finished { code: None, stdout: Vec::new(), stderr: b" caf\xe9\n".to_vec() };
    let error = tool_output(killed, "t", "failed", "not run").unwrap_err();
    assert_eq!(error.message, "failed: caf\u{fffd}");
    assert_eq!(error.reason, FailureReason::ScreenshotFailed);
}

#[test]
fn time_runs_out_or_is_cancelled() {
    assert_eq!(remaining(false, at(10), at(30)), Ok(Duration::from_millis(20)));
    assert_eq!(remaining(false, at(30), at(30)), Err(BudgetError::Elapsed));
    assert_eq!(remaining(true, at(10), at(30)), Err(BudgetError::Cancelled));
    assert_eq!(BudgetError::Elapsed.message(), "deadline elapsed");
    assert_eq!(BudgetError::Cancelled.message(), "run cancelled");
    assert_eq!(io_timeout(false, at(0), at(9000)), Ok(Duration::from_millis(50)));
    assert_eq!(io_timeout(false, at(0), at(20)), Ok(Duration::from_millis(20)));
    assert_eq!(io_timeout(true, at(0), at(20)), Err(BudgetError::Cancelled));
}

#[test]
fn sleeps_are_short_and_end_in_time() {
    assert_eq!(
        sleep_before(false, at(0), at(200), at(1000)),
        Wait::Sleep(Duration::from_millis(50))
    );
    assert_eq!(
        sleep_before(false, at(0), at(30), at(1000)),
        Wait::Sleep(Duration::from_millis(30))
    );
    assert_eq!(
        sleep_before(false, at(0), at(200), at(10)),
        Wait::Sleep(Duration::from_millis(10))
    );
    assert_eq!(sleep_before(false, at(200), at(200), at(1000)), Wait::Over);
    assert_eq!(
        sleep_before(false, at(1000), at(2000), at(1000)),
        Wait::Stop(BudgetError::Elapsed)
    );
}

#[test]
fn expired_budget_does_not_spawn_command() {
    assert_eq!(remaining(false, at(0), at(0)), Err(BudgetError::Elapsed));
    assert_eq!(
        poll_command(false, at(0), at(0), false),
        CommandPoll::Stop(BudgetError::Elapsed)
    );
}

#[test]
fn commands_are_polled_until_they_end() {
    assert_eq!(poll_command(false, at(0), at(10), false), CommandPoll::Wait);
    assert_eq!(poll_command(false, at(0), at(10), true), CommandPoll::Collect);
    assert_eq!(
        poll_command(true, at(0), at(10), true),
        CommandPoll::Stop(BudgetError::Cancelled)
    );
    assert_eq!(poll_cleanup(at(0), at(200), false), CleanupPoll::Wait);
    assert_eq!(poll_cleanup(at(0), at(200), true), CleanupPoll::Kill);
    assert_eq!(poll_cleanup(at(200), at(200), false), CleanupPoll::Kill);
}

#[test]
fn captures_are_retried_until_their_time_is_up() {
    let limit = Duration::from_secs(10);
    let mut wait = CaptureWait::new(limit);
    assert!(matches!(wait.begin(Duration::from_secs(1), Ok(())), Attempt::Try));
    assert_eq!(
        reason_of(wait.begin(limit, Ok(()))),
        (
            FailureReason::ScreenshotFailed,
            "failed to capture screenshot within 10s: unknown error".to_string()
        )
    );
    assert!(matches!(wait.tried(Err(failure(" black screen "))), Attempt::Sleep));
    assert!(matches!(wait.slept(Ok(())), Attempt::Try));
    assert_eq!(
        reason_of(wait.begin(limit, Ok(()))).1,
        "failed to capture screenshot within 10s: black screen"
    );
    assert_eq!(
        reason_of(wait.begin(Duration::from_secs(1), Err("gone".to_string()))),
        (FailureReason::InternalError, "gone".to_string())
    );
    assert!(matches!(wait.tried(Ok(())), Attempt::Done));
    assert_eq!(
        reason_of(wait.slept(Err("run cancelled".to_string()))).1,
        "failed to capture screenshot within 10s: run cancelled"
    );
}

#[test]
fn clicks_have_to_change_the_picture() {
    let limit = Duration::from_secs(3);
    let mut wait = ChangeWait::new("Log In", limit);
    assert!(matches!(wait.begin(Duration::from_secs(1)), Attempt::Try));
    let same = ChangeTry::Compared(Comparison { has_content: true, changed: false });
    assert!(matches!(wait.tried(same), Attempt::Sleep));
    assert_eq!(
        reason_of(wait.begin(limit)).1,
        "failed to capture screenshot after clicking 'Log In' within 3s: \
         screenshot did not change after click"
    );
    assert!(matches!(wait.tried(ChangeTry::Missed(failure("busy"))), Attempt::Sleep));
    assert!(reason_of(wait.begin(limit)).1.ends_with(": busy"));
    assert_eq!(reason_of(wait.tried(ChangeTry::Unreadable(failure("bad")))).1, "bad");
    assert!(matches!(wait.slept(Ok(())), Attempt::Try));
    assert_eq!(
        reason_of(wait.slept(Err("late".to_string()))),
        (FailureReason::ScreenshotFailed, "late".to_string())
    );
    let other = ChangeTry::Compared(Comparison { has_content: true, changed: true });
    assert!(matches!(wait.tried(other), Attempt::Done));
}

#[test]
fn first_frames_have_to_persist() {
    let mut wait = FrameWait::new(Duration::from_secs(30));
    let shown = Comparison { has_content: true, changed: true };
    let step = wait.looked(Ok(shown), at(0));
    assert_eq!(step.log, vec!["first visible sample; observing app content"]);
    assert!(matches!(step.next, Attempt::Sleep));
    let step = wait.looked(Ok(shown), at(400));
    assert!(step.log.is_empty());
    let step = wait.looked(Ok(shown), at(800));
    assert!(matches!(step.next, Attempt::Done));
    assert_eq!(
        step.log,
        vec!["visible app content persisted for at least 750ms across at least 3 samples"]
    );
    let hidden = Comparison { has_content: false, changed: true };
    assert!(matches!(wait.looked(Ok(hidden), at(900)).next, Attempt::Sleep));
    assert_eq!(reason_of(wait.looked(Err(failure("bad")), at(901)).next).1, "bad");
    assert_eq!(
        reason_of(wait.begin(Duration::from_secs(30), Ok(()))),
        (
            FailureReason::WindowTimeout,
            "no persistent visible app content appeared within 30s".to_string()
        )
    );
    assert!(matches!(wait.begin(Duration::from_secs(1), Ok(())), Attempt::Try));
    assert!(matches!(wait.slept(Ok(()), Err(BudgetError::Elapsed)), Attempt::Try));
    assert_eq!(
        reason_of(wait.slept(Err("late".to_string()), Ok(Duration::from_secs(1)))).0,
        FailureReason::WindowTimeout
    );
    assert_eq!(
        reason_of(wait.slept(Err("late".to_string()), Err(BudgetError::Elapsed))),
        (FailureReason::InternalError, "deadline elapsed".to_string())
    );
    let own = wait.settle(failure("x"), at(10), at(10), Ok(Duration::from_secs(1)));
    assert_eq!(own.reason, FailureReason::WindowTimeout);
    let whole = wait.settle(failure("x"), at(10), at(10), Err(BudgetError::Elapsed));
    assert_eq!(whole.message, "x");
}

fn look(run: SessionRun) -> SessionRun {
    run.advance(Report::Content).advance(Report::Marker { marker: None })
}

fn first_picture(clicks: &[&str]) -> SessionRun {
    let clicks = clicks.iter().map(|click| click.to_string()).collect();
    SessionRun::new("000-window-visible.png", clicks)
        .advance(Report::Done)
        .advance(Report::Done)
        .advance(Report::Visible { elapsed_ms: 2400 })
        .advance(Report::Done)
}

#[test]
fn sessions_show_every_click() {
    let run = first_picture(&["Log In", "Next"]);
    let mut run = look(run);
    for expected in ["001-after-click-log-in.png", "002-after-click-next.png"] {
        run = run
            .advance(Report::Target { target: Some((10, 20)) })
            .advance(Report::Done)
            .advance(Report::Done);
        assert_eq!(run.next_name().as_deref(), Some(expected));
        run = run.advance(Report::Done).advance(Report::Marker { marker: None });
    }
    assert!(matches!(run.stage, SessionStage::Budget));
    let run = run.advance(Report::Done);
    let success = run.conclude(Ok(())).unwrap();
    assert_eq!(
        success.screenshot_paths,
        vec![
            "screenshots/000-window-visible.png",
            "screenshots/001-after-click-log-in.png",
            "screenshots/002-after-click-next.png",
        ]
    );
    assert_eq!(success.launch_to_window_ms, 2400);
}

#[test]
fn sessions_fail_with_what_they_have() {
    let run = first_picture(&[]);
    assert_eq!(run.screenshots, vec!["screenshots/000-window-visible.png"]);
    let blank = run.advance(Report::NoContent { path: "out/a.png".to_string() });
    let error = blank.conclude(Ok(())).unwrap_err();
    assert_eq!(error.message, "screenshot 'out/a.png' contained no visible app content");
    assert_eq!(error.screenshots, vec!["screenshots/000-window-visible.png"]);

    let marked = first_picture(&[])
        .advance(Report::Content)
        .advance(Report::Marker { marker: Some("fatal error".to_string()) });
    let error = marked.conclude(Ok(())).unwrap_err();
    assert_eq!(error.reason, FailureReason::AppErrorWindow);

    let lost = look(first_picture(&["Log In"])).advance(Report::Target { target: None });
    let error = lost.conclude(Ok(())).unwrap_err();
    assert_eq!(error.message, "could not find text 'Log In' in screenshot OCR output");

    let exited = look(first_picture(&["Log In"])).advance(Report::Failed { error: failure("x") });
    let exit = SessionError::new(FailureReason::EarlyExit, "app is gone".to_string());
    let error = exited.conclude(Err(exit)).unwrap_err();
    assert_eq!(error.reason, FailureReason::EarlyExit);
    assert_eq!(error.screenshots.len(), 1);
}

#[test]
fn sessions_without_time_left_do_not_finish() {
    let run = look(first_picture(&[]));
    assert!(matches!(run.stage, SessionStage::Budget));
    let late = SessionError::internal(BudgetError::Elapsed.message());
    let run = run.advance(Report::Failed { error: late });
    let error = run.conclude(Ok(())).unwrap_err();
    assert_eq!(error.reason, FailureReason::InternalError);
    assert_eq!(error.message, "deadline elapsed");
    assert_eq!(error.screenshots, vec!["screenshots/000-window-visible.png"]);
}

#[test]
fn closing_adds_the_last_candidate() {
    let success =
        SessionSuccess { screenshot_paths: vec!["a.png".to_string()], launch_to_window_ms: 1 };
    assert!(close_session(Ok(success.clone()), Ok(()), true).is_ok());
    let error = close_session(Ok(success), Err(failure("weston is gone")), true).unwrap_err();
    assert_eq!(error.message, "weston is gone");
    assert_eq!(error.screenshots, vec!["a.png", "logs/last-candidate.png"]);
    let error = close_session(Err(failure("first")), Ok(()), false).unwrap_err();
    assert_eq!(error.message, "first");
    assert!(error.screenshots.is_empty());
}

#[test]
fn exited_processes_are_told() {
    assert!(check_processes(&ProcessState::Running, &Some(ProcessState::Running)).is_ok());
    assert!(check_processes(&ProcessState::Running, &None).is_ok());
    let gone = ProcessState::Exited("signal: 9".to_string());
    let error = check_processes(&gone, &None).unwrap_err();
    assert_eq!(error.reason, FailureReason::DisplayExited);
    assert_eq!(error.message, "Weston exited during verification with signal: 9");
    let error = check_processes(&ProcessState::Running, &Some(gone)).unwrap_err();
    assert_eq!(error.reason, FailureReason::EarlyExit);
    assert_eq!(error.message, "app exited during verification with signal: 9");
    let unknown = ProcessState::Unknown("no such child".to_string());
    let error = check_processes(&unknown, &None).unwrap_err();
    assert_eq!(error.reason, FailureReason::InternalError);
    assert_eq!(error.message, "no such child");
}

#[test]
fn timeouts_are_bounded_by_the_run() {
    assert_eq!(
        bounded_timeout(false, at(0), at(100), Duration::from_secs(1)).unwrap(),
        Duration::from_millis(100)
    );
    assert_eq!(
        bounded_timeout(false, at(0), at(5000), Duration::from_secs(1)).unwrap(),
        Duration::from_secs(1)
    );
    let error = bounded_timeout(false, at(100), at(100), Duration::from_secs(1)).unwrap_err();
    assert_eq!(error.reason, FailureReason::InternalError);
    assert_eq!(error.message, "deadline elapsed");
}

#[test]
fn weston_is_tried_with_each_backend() {
    let left = || Ok(Duration::from_secs(1));
    assert!(matches!(start_weston(0, left(), None), StartStep::Try(name) if name == "vnc"));
    assert!(
        matches!(start_weston(1, left(), Some(failure("x"))), StartStep::Try(name) if name == "vnc-backend.so")
    );
    match start_weston(2, left(), Some(failure("last"))) {
        StartStep::Fail(error) => assert_eq!(error.message, "last"),
        other => panic!("unexpected {other:?}"),
    }
    match start_weston(0, Err(BudgetError::Cancelled), None) {
        StartStep::Fail(error) => assert_eq!(error.message, "run cancelled"),
        other => panic!("unexpected {other:?}"),
    }
    assert_eq!(backend(2), None);
    assert_eq!(
        weston_args("vnc", display_name(), 5901)[..4],
        [
            "--backend=vnc",
            "--socket=flatpak-smoke-wayland",
            "--address=127.0.0.1",
            "--port=5901"
        ]
    );
    assert_eq!(
        weston_log("d", 5901),
        "starting Weston Wayland display d with VNC input port 5901"
    );
    assert_eq!(
        weston_spawn_error("vnc", "none").message,
        "failed to start Weston with backend 'vnc': none"
    );
}

#[test]
fn displays_become_ready_or_fail() {
    let limit = Duration::from_secs(10);
    let mut wait = CompositorWait::new(limit);
    let running = ProcessState::Running;
    let gone = ProcessState::Exited("exit status: 1".to_string());
    let told = |step| match step {
        ReadyStep::Fail(error) => error.message,
        other => panic!("unexpected {other:?}"),
    };
    assert!(matches!(wait.begin(Duration::from_secs(1), &running), ReadyStep::Capture));
    assert_eq!(
        told(wait.begin(Duration::from_secs(1), &gone)),
        "Weston exited before the Wayland display became ready with exit status: 1"
    );
    assert_eq!(
        told(wait.begin(limit, &running)),
        "Weston Wayland display did not become ready within 10s: unknown readiness error"
    );
    assert!(matches!(wait.captured(Err(failure(" refused\n"))), ReadyStep::Sleep));
    assert!(matches!(wait.slept(Ok(())), ReadyStep::Capture));
    assert_eq!(
        told(wait.begin(limit, &running)),
        "Weston Wayland display did not become ready within 10s: refused"
    );
    assert!(matches!(wait.captured(Ok(())), ReadyStep::Recheck));
    assert!(matches!(wait.rechecked(&running), ReadyStep::Ready));
    assert_eq!(
        told(wait.rechecked(&gone)),
        "Weston exited after display readiness check with exit status: 1"
    );
    assert_eq!(
        told(wait.slept(Err(BudgetError::Elapsed))),
        "Weston Wayland display did not become ready within 10s: deadline elapsed"
    );
}

#[test]
fn free_ports_are_sought_in_order() {
    assert!(matches!(next_port(FIRST_PORT, END_PORT), PortStep::Try(5900)));
    assert!(matches!(tried_port(5900, END_PORT, PortState::Busy), PortStep::Try(5901)));
    assert!(matches!(tried_port(5901, END_PORT, PortState::Held), PortStep::Try(5902)));
    assert!(matches!(tried_port(5902, END_PORT, PortState::Locked), PortStep::Take(5902)));
    match tried_port(5999, END_PORT, PortState::Busy) {
        PortStep::Fail(error) => {
            assert_eq!(error.message, "no free VNC port found in range 5900-5999")
        }
        other => panic!("unexpected {other:?}"),
    }
    match tried_port(5900, END_PORT, PortState::Broken("no space".to_string())) {
        PortStep::Fail(error) => assert_eq!(error.reason, FailureReason::InternalError),
        other => panic!("unexpected {other:?}"),
    }
    assert_eq!(lock_name(5901), "port-5901.lock");
    assert_eq!(lock_holder(" 123\n"), Some(123));
    assert_eq!(lock_holder("x"), None);
    assert!(is_stale_lock(Some(123), false));
    assert!(!is_stale_lock(Some(123), true));
    assert!(!is_stale_lock(None, false));
}

#[test]
fn connections_have_names_and_limits() {
    assert_eq!(connect_timeout(Duration::from_secs(60)), Duration::from_secs(5));
    assert_eq!(connect_timeout(Duration::from_secs(1)), Duration::from_secs(1));
    assert_eq!(
        connect_error(5901, "refused").message,
        "failed to connect to Weston VNC port 5901: refused"
    );
    let set = |name: &str| Some(name.to_string());
    assert_eq!(
        vnc_credentials(set("a"), set("b"), set("c"), set("d")),
        ("a".to_string(), "d".to_string())
    );
    assert_eq!(vnc_credentials(None, set("b"), set("c"), None).0, "b");
    assert_eq!(vnc_credentials(None, None, set("c"), None).0, "c");
    assert_eq!(
        vnc_credentials(None, None, None, None),
        ("root".to_string(), "flatpak-smoke".to_string())
    );
}

#[test]
fn apps_run_below_a_session_bus() {
    let args = app_args("app/org.example.App/x86_64/stable");
    assert_eq!(args[..3], ["--", "sh", "-c"]);
    assert_eq!(args.last().unwrap(), "org.example.App//stable");
    assert!(args.iter().any(|arg| arg == "--env=GDK_BACKEND=wayland"));
    let error = launch_error("app/org.example.App/x86_64/stable", "missing");
    assert_eq!(error.reason, FailureReason::LaunchFailed);
    assert_eq!(error.message, "failed to launch app 'org.example.App//stable': missing");
}

#[test]
fn matches_only_keyring_unlock_daemon_cmdlines() {
    assert!(is_keyring_unlock_cmdline(
        b"/usr/bin/gnome-keyring-daemon\0--unlock\0--components=secrets\0"
    ));
    assert!(!is_keyring_unlock_cmdline(
        b"sh\0-c\0gnome-keyring-daemon --unlock --components=secrets\0"
    ));
    assert!(!is_keyring_unlock_cmdline(
        b"/usr/bin/gnome-keyring-daemon\0--start\0--foreground\0--components=secrets\0"
    ));
}

#[test]
fn matches_environ_entries_exactly() {
    assert!(environ_contains(
        b"A=1\0XDG_RUNTIME_DIR=/tmp/flatpak-smoke\0",
        "XDG_RUNTIME_DIR",
        b"/tmp/flatpak-smoke"
    ));
    assert!(!environ_contains(
        b"XDG_RUNTIME_DIR=/tmp/flatpak-smoke-other\0",
        "XDG_RUNTIME_DIR",
        b"/tmp/flatpak-smoke"
    ));
}

#[test]
fn only_keyrings_of_this_run_are_ended() {
    let cmdline: &[u8] = b"gnome-keyring-daemon\0--unlock\0--components=secrets\0";
    let environ: &[u8] = b"XDG_RUNTIME_DIR=/tmp/run\0";
    assert!(is_own_keyring(Some(cmdline), Some(environ), b"/tmp/run"));
    assert!(!is_own_keyring(Some(cmdline), Some(environ), b"/tmp/other"));
    assert!(!is_own_keyring(Some(cmdline), None, b"/tmp/run"));
    assert!(!is_own_keyring(None, Some(environ), b"/tmp/run"));
}
