use flatpak_smoke::cli::{
    default_level, parse_duration, parse_positive_u64, run, Cli, Commands, DoctorArgs,
    DoctorDesktop, Job, ScreenshotArgs, ScreenshotBundleArgs, ScreenshotRepoArgs,
    VerifyBundleArgs, VerifyCommonArgs, VerifyRepoArgs,
};
use flatpak_smoke::command::{
    ensure_file_nonempty, finish_run, give_up_run, log_command, log_status, log_timeout, poll_run,
    timeout_error, CommandOutput, RunPoll,
};
use flatpak_smoke::number::{
    decimal, decimal_signed, padded3, parse_i32, parse_u32, parse_u64, parse_usize,
};
use flatpak_smoke::text;
use flatpak_smoke::time::{bounded, format_duration, Duration, Instant};

fn at(millis: u64) -> Instant {
    Instant { nanos: 1_000_000 * u128::from(millis) }
}

fn verify_args() -> VerifyCommonArgs {
    VerifyCommonArgs {
        output: "out".to_string(),
        force: true,
        window_timeout: Duration::from_secs(5),
        display_timeout: Duration::from_secs(10),
        screenshot_timeout: Duration::from_secs(10),
        overall_timeout: Duration::from_secs(60),
        allow_network_remotes: false,
        screenshot_name: "000-window-visible.png".to_string(),
        screenshot_after_click: vec!["Log In".to_string()],
    }
}

fn screenshot_args() -> ScreenshotArgs {
    ScreenshotArgs {
        recipe: "recipe.yml".to_string(),
        output: "shots".to_string(),
        force: false,
        window_timeout: Duration::from_secs(30),
        display_timeout: Duration::from_secs(30),
        screenshot_timeout: Duration::from_secs(10),
        overall_timeout: Duration::from_secs(300),
        allow_network_remotes: true,
    }
}

#[test]
fn parses_duration_suffixes() {
    assert_eq!(parse_duration("250ms").unwrap(), Duration::from_millis(250));
    assert_eq!(parse_duration("15s").unwrap(), Duration::from_secs(15));
    assert_eq!(parse_duration("2m").unwrap(), Duration::from_secs(120));
    assert_eq!(parse_duration("7").unwrap(), Duration::from_secs(7));
}

#[test]
fn rejects_zero_duration() {
    assert!(parse_duration("0s").is_err());
}

#[test]
fn durations_are_trimmed_and_bounded() {
    assert_eq!(parse_duration("  3s ").unwrap(), Duration::from_secs(3));
    assert_eq!(parse_duration("3").unwrap(), parse_duration("3s").unwrap());
    assert_eq!(parse_duration("3s").unwrap(), parse_duration("3000ms").unwrap());
    assert_eq!(parse_duration("3m").unwrap(), parse_duration("180s").unwrap());
    assert!(parse_duration("").is_err());
    assert!(parse_duration("s").is_err());
    assert!(parse_duration("-1s").is_err());
    assert!(parse_duration("1h").is_err());
    assert!(parse_duration("1.5s").is_err());
    assert!(parse_duration("18446744073709551616s").is_err());
    let error = parse_duration("18446744073709551615m").unwrap_err();
    assert!(error.contains("duration is too large"), "{error}");
    assert_eq!(
        parse_duration("18446744073709551615ms").unwrap(),
        Duration::from_millis(u64::MAX)
    );
    assert_eq!(
        parse_duration("18446744073709551615s").unwrap(),
        Duration::from_secs(u64::MAX)
    );
}

#[test]
fn positive_numbers_exclude_zero_and_noise() {
    assert_eq!(parse_positive_u64("12", "12s"), Ok(12));
    assert!(parse_positive_u64("0", "0s").is_err());
    assert!(parse_positive_u64("x", "xs").unwrap_err().contains("xs"));
}

#[test]
fn written_durations_read_back_as_given() {
    for count in [1u64, 9, 10, 250, 61_000] {
        assert_eq!(
            parse_duration(&format!("{count}ms")).unwrap(),
            Duration::from_millis(count)
        );
        assert_eq!(parse_duration(&format!("{count}s")).unwrap(), Duration::from_secs(count));
        assert!(!parse_duration(&format!("{count}m")).unwrap().is_zero());
    }
}

#[test]
fn commands_become_jobs() {
    let cli = |command| Cli { command, verbose: false };
    assert!(matches!(
        run(cli(Commands::Doctor(DoctorArgs { desktop: None }))),
        Job::Doctor
    ));
    assert!(matches!(
        run(cli(Commands::Doctor(DoctorArgs { desktop: Some(DoctorDesktop::Gnome) }))),
        Job::ScreenshotDoctor
    ));
    match run(cli(Commands::VerifyBundle(VerifyBundleArgs {
        bundle: "app.flatpak".to_string(),
        common: verify_args(),
    }))) {
        Job::VerifyBundle(args) => {
            assert_eq!(args.bundle, "app.flatpak");
            assert_eq!(args.common.output, "out");
            assert!(args.common.force);
            assert_eq!(args.common.window_timeout, Duration::from_secs(5));
            assert_eq!(args.common.screenshot_after_click, vec!["Log In"]);
        }
        other => panic!("expected a bundle, got {other:?}"),
    }
    match run(cli(Commands::VerifyRepo(VerifyRepoArgs {
        repo: "repo".to_string(),
        app_ref: "org.example.App".to_string(),
        common: verify_args(),
    }))) {
        Job::VerifyRepo(args) => assert_eq!(args.app_ref, "org.example.App"),
        other => panic!("expected a repository, got {other:?}"),
    }
    match run(cli(Commands::ScreenshotBundle(ScreenshotBundleArgs {
        bundle: "app.flatpak".to_string(),
        common: screenshot_args(),
    }))) {
        Job::ScreenshotBundle(args) => assert_eq!(args.common.recipe, "recipe.yml"),
        other => panic!("expected screenshots of a bundle, got {other:?}"),
    }
    match run(cli(Commands::ScreenshotRepo(ScreenshotRepoArgs {
        repo: "repo".to_string(),
        app_ref: "app/org.example.App/x86_64/stable".to_string(),
        common: screenshot_args(),
    }))) {
        Job::ScreenshotRepo(args) => assert_eq!(args.repo, "repo"),
        other => panic!("expected screenshots of a repository, got {other:?}"),
    }
}

#[test]
fn verbosity_picks_the_level() {
    assert_eq!(default_level(true), "debug");
    assert_eq!(default_level(false), "warn");
}

#[test]
fn formats_subsecond_timeouts() {
    assert_eq!(format_duration(Duration::from_millis(250)), "250ms");
    assert_eq!(format_duration(Duration::from_secs(2)), "2s");
    assert_eq!(format_duration(Duration::from_millis(1250)), "1.250s");
}

#[test]
fn formats_fractions_with_three_places() {
    assert_eq!(format_duration(Duration::from_millis(0)), "0ms");
    assert_eq!(format_duration(Duration::from_millis(3005)), "3.005s");
    assert_eq!(format_duration(Duration { nanos: 1_000_000_001 }), "1s");
}

#[test]
fn deadlines_never_pass_the_overall_one() {
    assert_eq!(bounded(at(100), at(500), Duration::from_millis(200)), at(300));
    assert_eq!(bounded(at(100), at(500), Duration::from_millis(900)), at(500));
    assert_eq!(
        bounded(at(100), at(500), Duration { nanos: u128::MAX }),
        at(500)
    );
}

#[test]
fn durations_compare_and_subtract() {
    assert_eq!(
        Duration::from_secs(1).shorter(Duration::from_millis(900)),
        Duration::from_millis(900)
    );
    assert_eq!(Duration::from_millis(1999).as_secs(), 1);
    assert_eq!(Duration::from_millis(1999).as_millis(), 1999);
    assert_eq!(at(900).duration_since(at(400)), Duration::from_millis(500));
    assert_eq!(at(400).duration_since(at(900)), Duration::from_millis(0));
    assert_eq!(at(400).earlier(at(900)), at(400));
    assert_eq!(at(400).checked_add(Duration { nanos: u128::MAX }), None);
}

#[test]
fn numbers_are_written_as_std_writes_them() {
    for n in [0u128, 1, 9, 10, 99, 100, 12345, u128::from(u64::MAX), u128::MAX] {
        assert_eq!(decimal(n), n.to_string());
        assert_eq!(padded3(n), format!("{n:03}"));
    }
    for n in [0i64, -1, 1, -42, i64::MAX, i64::MIN + 1, i64::MIN] {
        assert_eq!(decimal_signed(n), n.to_string());
    }
}

#[test]
fn numbers_are_read_as_std_reads_them() {
    for written in [
        "", "+", "-", "0", "-0", "+0", "007", "+7", "-7", " 7", "7 ", "1_0", "0x1", "\u{0663}",
        "255", "2147483647", "2147483648", "-2147483648", "-2147483649", "4294967295",
        "4294967296", "18446744073709551615", "18446744073709551616",
        "000000000000000000000000000000000000000000000000000001",
        "340282366920938463463374607431768211456",
    ] {
        assert_eq!(parse_u64(written), written.parse::<u64>().ok(), "{written}");
        assert_eq!(parse_u32(written), written.parse::<u32>().ok(), "{written}");
        assert_eq!(parse_usize(written), written.parse::<usize>().ok(), "{written}");
        assert_eq!(parse_i32(written), written.parse::<i32>().ok(), "{written}");
    }
}

#[test]
fn written_numbers_read_back() {
    for n in [0u64, 7, 10, 1000, u64::MAX] {
        assert_eq!(parse_u64(&decimal(u128::from(n))), Some(n));
    }
}

#[test]
fn white_space_is_what_std_says() {
    for point in 0..=0x10ffffu32 {
        if let Some(c) = char::from_u32(point) {
            assert_eq!(text::white(c), c.is_whitespace(), "{point:x}");
            assert_eq!(text::ascii_alnum(c), c.is_ascii_alphanumeric(), "{point:x}");
            assert_eq!(text::ascii_lower_char(c), c.to_ascii_lowercase(), "{point:x}");
        }
    }
}

#[test]
fn texts_are_cut_as_std_cuts_them() {
    for written in [
        "", " ", "a", " a ", "a b", "\ta  b\n", "a\r\nb", "a\n\nb\n", "\n", "\r\n", "a\r",
        "\u{3000}a\u{2003}b", "a,b,,c", ",",
    ] {
        assert_eq!(text::trim(written), written.trim());
        assert_eq!(text::trim_end(written), written.trim_end());
        assert_eq!(text::lines(written), written.lines().collect::<Vec<_>>());
        assert_eq!(text::words(written), written.split_whitespace().collect::<Vec<_>>());
        assert_eq!(text::split(written, ','), written.split(',').collect::<Vec<_>>());
        assert_eq!(text::blank(written), written.trim().is_empty());
        assert_eq!(text::ascii_lower(written), written.to_ascii_lowercase());
        assert_eq!(
            text::split_once(written, ','),
            written.split_once(',').map(|(a, b)| (a.to_string(), b.to_string()))
        );
        for part in ["", "a", " ", "b", ",", "\n"] {
            assert_eq!(text::contains(written, part), written.contains(part));
            assert_eq!(text::starts_with(written, part), written.starts_with(part));
            assert_eq!(text::ends_with(written, part), written.ends_with(part));
            assert_eq!(
                text::strip_suffix(written, part),
                written.strip_suffix(part).map(str::to_string)
            );
        }
    }
    assert_eq!(text::split_bytes(b"a\0b\0", 0), vec![b"a".to_vec(), b"b".to_vec(), vec![]]);
    assert_eq!(text::join(&["a".to_string(), "b".to_string()], ", "), "a, b");
}

fn output(success: bool, status: &str, stdout: &str, stderr: &str) -> CommandOutput {
    CommandOutput {
        success,
        status: status.to_string(),
        stdout: stdout.to_string(),
        stderr: stderr.to_string(),
    }
}

#[test]
fn commands_are_logged_with_their_output() {
    assert_eq!(
        log_command("flatpak", &["install".to_string(), "app".to_string()]),
        "$ flatpak install app"
    );
    assert_eq!(
        log_status("flatpak", &output(true, "exit status: 0", "done\n", " \n")),
        vec!["flatpak exited with exit status: 0", "flatpak stdout:\ndone"]
    );
    assert_eq!(
        log_timeout("flatpak", Duration::from_secs(2), "half", "slow\n\n"),
        vec![
            "flatpak timed out after 2s",
            "flatpak stdout before timeout:\nhalf",
            "flatpak stderr before timeout:\nslow",
        ]
    );
    assert!(timeout_error("flatpak", Duration::from_millis(250)).contains("250ms"));
}

#[test]
fn runs_end_when_they_exit_or_time_out() {
    let limit = Duration::from_secs(2);
    assert_eq!(poll_run(true, true, Duration::from_secs(9), limit), RunPoll::Finished);
    assert_eq!(poll_run(false, false, Duration::from_secs(1), limit), RunPoll::Wait);
    assert_eq!(poll_run(false, false, limit, limit), RunPoll::TimedOut);
    assert_eq!(poll_run(false, true, limit, limit), RunPoll::Cancelled);
}

#[test]
fn finished_runs_decode_their_streams() {
    let (log, got) = finish_run("tool", false, "exit status: 1", b"caf\xc3\xa9", b"bad \xff byte");
    assert!(!got.success);
    assert_eq!(got.stdout, "caf\u{e9}");
    assert_eq!(got.stderr, "bad \u{fffd} byte");
    assert!(log.concat().contains("caf\u{e9}"));
    let (log, error) = give_up_run("tool", Duration::from_secs(1), b"out \xff", b"err");
    assert!(log.concat().contains("out \u{fffd}"));
    assert_eq!(error, timeout_error("tool", Duration::from_secs(1)));
}

#[test]
fn empty_files_are_refused() {
    assert_eq!(ensure_file_nonempty("shot.png", 1), Ok(()));
    assert_eq!(ensure_file_nonempty("shot.png", 0), Err("'shot.png' is empty".to_string()));
}
